//! The cache coordinator: TTL-bound caches for current snapshots,
//! historical series and order books, fed by the streaming client's
//! accepted messages, with staleness cleanup and least-recently-used
//! eviction.
//!
//! The coordinator never fetches by itself: a miss or a stale entry is
//! reported to the caller, which performs the fetch and hands the
//! validated result back.

use vstd::prelude::*;

use crate::messages::{
    entries_sorted_asc, entries_sorted_desc, sort_entries_asc, sort_entries_desc, MessagePayload,
    MessageType, OrderBookEntry, OrderBookUpdate, QuoteUpdate, TradeUpdate, ValidationError,
    WebSocketMessage,
};
use crate::policy::{ConnectionStatus, NetworkError, NetworkErrorHandler};
use crate::strutil::str_eq;

verus! {

/// The market session state attached to a snapshot.
#[derive(Clone, Copy, Debug, PartialEq, Eq, Structural)]
pub enum MarketStatus {
    Open,
    Closed,
    PreMarket,
    AfterHours,
}

/// Where a cached value came from: the live stream, a fallback fetch,
/// or the simulator.
#[derive(Clone, Copy, Debug, PartialEq, Eq, Structural)]
pub enum DataSource {
    WebSocket,
    Http,
    Mock,
}

/// The latest known state of one instrument. Prices are hundredths,
/// percentages basis points, instants milliseconds.
#[derive(Clone, Debug, PartialEq)]
pub struct MarketData {
    pub symbol: String,
    pub current_price: u64,
    pub change: i64,
    pub change_percent_bp: i64,
    pub volume: u64,
    pub market_cap: Option<u64>,
    pub high_52w: Option<u64>,
    pub low_52w: Option<u64>,
    pub timestamp_ms: u64,
    pub market_status: MarketStatus,
    pub previous_close: u64,
    pub day_high: u64,
    pub day_low: u64,
    pub average_volume: Option<u64>,
    pub bid: Option<u64>,
    pub ask: Option<u64>,
    pub bid_size: Option<u64>,
    pub ask_size: Option<u64>,
}

/// The record a snapshot must satisfy to enter the cache: a symbol, an
/// uncrossed quote when both sides are present, and an ordered day range.
pub open spec fn market_data_valid(d: MarketData) -> bool {
    &&& d.symbol@.len() > 0
    &&& (d.bid matches Some(b) && d.ask matches Some(a)) ==> d.bid->Some_0 < d.ask->Some_0
    &&& d.day_high >= d.day_low
}

/// One OHLCV record for a fixed period.
#[derive(Clone, Copy, Debug, PartialEq, Eq, Structural)]
pub struct Candle {
    pub timestamp_ms: u64,
    pub open: u64,
    pub high: u64,
    pub low: u64,
    pub close: u64,
    pub volume: u64,
}

/// The period one candle covers.
#[derive(Clone, Copy, Debug, PartialEq, Eq, Structural, Hash)]
pub enum TimeFrame {
    OneMinute,
    FiveMinutes,
    FifteenMinutes,
    ThirtyMinutes,
    OneHour,
    FourHours,
    OneDay,
    OneWeek,
    OneMonth,
}

/// Ranked bid and ask levels for one instrument, with the derived
/// spread and mid price.
#[derive(Clone, Debug)]
pub struct OrderBook {
    pub symbol: String,
    pub bids: Vec<OrderBookEntry>,
    pub asks: Vec<OrderBookEntry>,
    pub timestamp_ms: u64,
    /// Best ask minus best bid, in hundredths; zero without both sides.
    pub spread: u64,
    /// Spread over best bid, in basis points, saturating.
    pub spread_percent_bp: u64,
    /// Midpoint of the best bid and ask, in hundredths, rounded down.
    pub mid_price: u64,
    pub sequence_number: u64,
}

/// A book whose sides are ordered best-first and do not cross.
pub open spec fn book_sides_ok(b: OrderBook) -> bool {
    &&& entries_sorted_desc(b.bids@)
    &&& entries_sorted_asc(b.asks@)
    &&& b.bids@.len() > 0 && b.asks@.len() > 0 ==> b.bids@[0].price < b.asks@[0].price
}

/// The derived figures match the best levels.
pub open spec fn book_derived_ok(b: OrderBook) -> bool {
    if b.bids@.len() > 0 && b.asks@.len() > 0 {
        let bb = b.bids@[0].price;
        let ba = b.asks@[0].price;
        &&& ba >= bb ==> b.spread == ba - bb
        &&& ba < bb ==> b.spread == 0
        &&& b.mid_price == (bb + ba) / 2
        &&& bb > 0 && ba >= bb ==> b.spread_percent_bp as int == crate::messages::spec_min_int(
            (ba - bb) * 10000 / bb as int,
            u64::MAX as int,
        )
    } else {
        b.spread == 0 && b.spread_percent_bp == 0 && b.mid_price == 0
    }
}

impl OrderBook {
    /// An empty book for the symbol.
    pub fn new(symbol: String, now_ms: u64) -> (r: Result<OrderBook, ValidationError>)
        ensures
            symbol@.len() == 0 ==> r == Err::<OrderBook, ValidationError>(
                ValidationError::EmptySymbol,
            ),
            symbol@.len() > 0 ==> {
                &&& r is Ok
                &&& r->Ok_0.symbol@ == symbol@
                &&& r->Ok_0.bids@.len() == 0
                &&& r->Ok_0.asks@.len() == 0
                &&& r->Ok_0.spread == 0
                &&& r->Ok_0.spread_percent_bp == 0
                &&& r->Ok_0.mid_price == 0
                &&& r->Ok_0.sequence_number == 0
                &&& r->Ok_0.timestamp_ms == now_ms
            },
    {
        if symbol.as_str().is_empty() {
            return Err(ValidationError::EmptySymbol);
        }
        Ok(
            OrderBook {
                symbol,
                bids: Vec::new(),
                asks: Vec::new(),
                timestamp_ms: now_ms,
                spread: 0,
                spread_percent_bp: 0,
                mid_price: 0,
                sequence_number: 0,
            },
        )
    }

    /// Recompute spread, spread percentage and mid price from the best
    /// levels.
    pub fn calculate_spread(&mut self)
        ensures
            book_derived_ok(*final(self)),
            final(self).symbol@ == old(self).symbol@,
            final(self).bids@ == old(self).bids@,
            final(self).asks@ == old(self).asks@,
            final(self).timestamp_ms == old(self).timestamp_ms,
            final(self).sequence_number == old(self).sequence_number,
    {
        if self.bids.len() > 0 && self.asks.len() > 0 {
            let bb = self.bids[0].price;
            let ba = self.asks[0].price;
            self.spread = if ba >= bb {
                ba - bb
            } else {
                0
            };
            let wide: u128 = (bb as u128) + (ba as u128);
            self.mid_price = (wide / 2) as u64;
            proof {
                assert((bb as u128 + ba as u128) / 2 <= u64::MAX as u128) by (nonlinear_arith)
                    requires
                        bb <= u64::MAX && ba <= u64::MAX,
                ;
            }
            self.spread_percent_bp = if bb > 0 && ba >= bb {
                let pct: u128 = ((ba - bb) as u128) * 10000 / (bb as u128);
                if pct > u64::MAX as u128 {
                    u64::MAX
                } else {
                    pct as u64
                }
            } else {
                0
            };
        } else {
            self.spread = 0;
            self.spread_percent_bp = 0;
            self.mid_price = 0;
        }
    }
}

/// One cached snapshot with its provenance and access record.
#[derive(Clone, Debug)]
pub struct CachedMarketData {
    pub data: MarketData,
    pub cached_at_ms: u64,
    pub source: DataSource,
    pub access_count: u32,
    pub last_accessed_ms: u64,
}

/// One cached historical series.
#[derive(Clone, Debug)]
pub struct HistoricalSeries {
    pub symbol: String,
    pub timeframe: TimeFrame,
    pub candles: Vec<Candle>,
}

/// The newest sequence number accepted for a symbol, for request
/// deduplication against stale updates.
#[derive(Clone, Debug)]
pub struct SequenceStamp {
    pub symbol: String,
    pub sequence: u64,
    pub stored_at_ms: u64,
}

/// `a - b`, floored at zero.
pub open spec fn sat_sub(a: u64, b: u64) -> u64 {
    if a >= b {
        (a - b) as u64
    } else {
        0
    }
}

/// A snapshot entry still fresh at `now_ms` under the given TTL.
pub open spec fn entry_fresh(e: CachedMarketData, now_ms: u64, ttl_ms: u64) -> bool {
    e.cached_at_ms <= now_ms && now_ms - e.cached_at_ms < ttl_ms
}

/// One snapshot per symbol.
pub open spec fn cache_unique(c: Seq<CachedMarketData>) -> bool {
    forall|i: int, j: int|
        0 <= i < j < c.len() ==> #[trigger] c[i].data.symbol@ != #[trigger] c[j].data.symbol@
}

/// Whether a snapshot for the symbol is cached.
pub open spec fn cache_has(c: Seq<CachedMarketData>, sym: Seq<char>) -> bool {
    exists|i: int| 0 <= i < c.len() && #[trigger] c[i].data.symbol@ == sym
}

/// The cached snapshot entry of a symbol, if any.
pub open spec fn cache_entry(c: Seq<CachedMarketData>, sym: Seq<char>) -> Option<CachedMarketData> {
    if cache_has(c, sym) {
        let i = choose|i: int| 0 <= i < c.len() && #[trigger] c[i].data.symbol@ == sym;
        Some(c[i])
    } else {
        None
    }
}

/// The cache rows whose symbol differs from `sym`.
pub open spec fn cache_others(c: Seq<CachedMarketData>, sym: Seq<char>) -> Seq<CachedMarketData> {
    c.filter(|e: CachedMarketData| e.data.symbol@ != sym)
}

/// One book per symbol.
pub open spec fn books_unique(c: Seq<OrderBook>) -> bool {
    forall|i: int, j: int|
        0 <= i < j < c.len() ==> #[trigger] c[i].symbol@ != #[trigger] c[j].symbol@
}

pub open spec fn books_has(c: Seq<OrderBook>, sym: Seq<char>) -> bool {
    exists|i: int| 0 <= i < c.len() && #[trigger] c[i].symbol@ == sym
}

/// The cached book of a symbol, if any.
pub open spec fn book_entry(c: Seq<OrderBook>, sym: Seq<char>) -> Option<OrderBook> {
    if books_has(c, sym) {
        let i = choose|i: int| 0 <= i < c.len() && #[trigger] c[i].symbol@ == sym;
        Some(c[i])
    } else {
        None
    }
}

/// One stamp per symbol.
pub open spec fn stamps_unique(c: Seq<SequenceStamp>) -> bool {
    forall|i: int, j: int|
        0 <= i < j < c.len() ==> #[trigger] c[i].symbol@ != #[trigger] c[j].symbol@
}

pub open spec fn stamps_has(c: Seq<SequenceStamp>, sym: Seq<char>) -> bool {
    exists|i: int| 0 <= i < c.len() && #[trigger] c[i].symbol@ == sym
}

/// The accepted sequence number of a symbol, if any.
pub open spec fn stamp_of(c: Seq<SequenceStamp>, sym: Seq<char>) -> Option<u64> {
    if stamps_has(c, sym) {
        let i = choose|i: int| 0 <= i < c.len() && #[trigger] c[i].symbol@ == sym;
        Some(c[i].sequence)
    } else {
        None
    }
}

/// One series per (symbol, timeframe).
pub open spec fn series_unique(c: Seq<HistoricalSeries>) -> bool {
    forall|i: int, j: int|
        0 <= i < j < c.len() ==> !(#[trigger] c[i].symbol@ == #[trigger] c[j].symbol@
            && c[i].timeframe == c[j].timeframe)
}

pub open spec fn series_has(c: Seq<HistoricalSeries>, sym: Seq<char>, tf: TimeFrame) -> bool {
    exists|i: int| 0 <= i < c.len() && #[trigger] c[i].symbol@ == sym && c[i].timeframe == tf
}

/// The cached candles of a (symbol, timeframe), if any.
pub open spec fn series_of(c: Seq<HistoricalSeries>, sym: Seq<char>, tf: TimeFrame) -> Option<
    Seq<Candle>,
> {
    if series_has(c, sym, tf) {
        let i = choose|i: int|
            0 <= i < c.len() && #[trigger] c[i].symbol@ == sym && c[i].timeframe == tf;
        Some(c[i].candles@)
    } else {
        None
    }
}

/// Unique subscribed symbols.
pub open spec fn symbols_unique(s: Seq<String>) -> bool {
    forall|i: int, j: int| 0 <= i < j < s.len() ==> #[trigger] s[i]@ != #[trigger] s[j]@
}

pub open spec fn symbols_has(s: Seq<String>, sym: Seq<char>) -> bool {
    exists|i: int| 0 <= i < s.len() && #[trigger] s[i]@ == sym
}

/// The snapshot a quote update turns into: last price becomes the
/// current price, the quote's open stands as the previous close, and
/// the bid and ask sides are carried along.
pub open spec fn market_data_of_quote(q: QuoteUpdate) -> MarketData {
    MarketData {
        symbol: q.symbol,
        current_price: q.last_price,
        change: q.change,
        change_percent_bp: q.change_percent_bp,
        volume: q.volume,
        market_cap: None,
        high_52w: None,
        low_52w: None,
        timestamp_ms: q.timestamp_ms,
        market_status: MarketStatus::Open,
        previous_close: q.open,
        day_high: q.high,
        day_low: q.low,
        average_volume: None,
        bid: Some(q.bid),
        ask: Some(q.ask),
        bid_size: Some(q.bid_size),
        ask_size: Some(q.ask_size),
    }
}

/// Quote soundness: a quote that passes the streaming client's quality
/// rule and has an ordered day range maps to a snapshot the cache
/// accepts, and that snapshot carries a positive bid, a positive ask,
/// an uncrossed quote and an ordered day range.
pub proof fn law_accepted_quote_valid(q: QuoteUpdate)
    requires
        crate::client::quote_quality_ok(q),
        q.high >= q.low,
    ensures
        market_data_valid(market_data_of_quote(q)),
        market_data_of_quote(q).bid == Some(q.bid) && q.bid > 0,
        market_data_of_quote(q).ask == Some(q.ask) && q.ask > 0,
        q.bid < q.ask,
        market_data_of_quote(q).day_high >= market_data_of_quote(q).day_low,
{
}

/// Every snapshot the cache holds satisfies the insert rules: it was
/// validated on the way in and no operation weakens it.
pub proof fn law_cached_snapshot_valid(s: DataService, sym: Seq<char>)
    requires
        s.wf(),
        cache_entry(s.cache@, sym) matches Some(e),
    ensures
        cache_entry(s.cache@, sym) matches Some(e) && market_data_valid(e.data),
{
    let w = choose|w: int| 0 <= w < s.cache@.len() && #[trigger] s.cache@[w].data.symbol@ == sym;
    assert(market_data_valid(s.cache@[w].data));
}

/// Every book the cache holds has its bid side non-increasing, its ask
/// side non-decreasing, its best bid under its best ask whenever both
/// sides exist, and its spread and mid price computed from the best
/// levels.
pub proof fn law_cached_book_ordered(s: DataService, sym: Seq<char>)
    requires
        s.wf(),
        book_entry(s.order_book_cache@, sym) matches Some(b),
    ensures
        book_entry(s.order_book_cache@, sym) matches Some(b) && book_sides_ok(b)
            && book_derived_ok(b),
{
    let w = choose|w: int|
        0 <= w < s.order_book_cache@.len() && #[trigger] s.order_book_cache@[w].symbol@ == sym;
    assert(book_sides_ok(s.order_book_cache@[w]) && book_derived_ok(s.order_book_cache@[w]));
}

/// An equal copy of a snapshot.
pub fn duplicate_market_data(d: &MarketData) -> (r: MarketData)
    ensures
        r == *d,
{
    MarketData {
        symbol: d.symbol.clone(),
        current_price: d.current_price,
        change: d.change,
        change_percent_bp: d.change_percent_bp,
        volume: d.volume,
        market_cap: d.market_cap,
        high_52w: d.high_52w,
        low_52w: d.low_52w,
        timestamp_ms: d.timestamp_ms,
        market_status: d.market_status,
        previous_close: d.previous_close,
        day_high: d.day_high,
        day_low: d.day_low,
        average_volume: d.average_volume,
        bid: d.bid,
        ask: d.ask,
        bid_size: d.bid_size,
        ask_size: d.ask_size,
    }
}

/// A copy of a list of book levels.
fn copy_entries(v: &Vec<OrderBookEntry>) -> (r: Vec<OrderBookEntry>)
    ensures
        r@ == v@,
{
    let mut r: Vec<OrderBookEntry> = Vec::new();
    let mut i: usize = 0;
    while i < v.len()
        invariant
            i <= v@.len(),
            r@ == v@.subrange(0, i as int),
        decreases v@.len() - i,
    {
        proof {
            assert(v@.subrange(0, i as int + 1) =~= v@.subrange(0, i as int).push(v@[i as int]));
        }
        r.push(v[i]);
        i = i + 1;
    }
    proof {
        assert(v@.subrange(0, v@.len() as int) =~= v@);
    }
    r
}

/// A copy of a list of candles.
fn copy_candles(v: &Vec<Candle>) -> (r: Vec<Candle>)
    ensures
        r@ == v@,
{
    let mut r: Vec<Candle> = Vec::new();
    let mut i: usize = 0;
    while i < v.len()
        invariant
            i <= v@.len(),
            r@ == v@.subrange(0, i as int),
        decreases v@.len() - i,
    {
        proof {
            assert(v@.subrange(0, i as int + 1) =~= v@.subrange(0, i as int).push(v@[i as int]));
        }
        r.push(v[i]);
        i = i + 1;
    }
    proof {
        assert(v@.subrange(0, v@.len() as int) =~= v@);
    }
    r
}

/// With unique symbols, any row holding the symbol is the entry.
proof fn lemma_cache_entry_is(c: Seq<CachedMarketData>, sym: Seq<char>, i: int)
    requires
        cache_unique(c),
        0 <= i < c.len(),
        c[i].data.symbol@ == sym,
    ensures
        cache_entry(c, sym) == Some(c[i]),
{
    assert(cache_has(c, sym));
    let w = choose|w: int| 0 <= w < c.len() && #[trigger] c[w].data.symbol@ == sym;
    if w < i {
        assert(c[w].data.symbol@ != c[i].data.symbol@);
    } else if w > i {
        assert(c[i].data.symbol@ != c[w].data.symbol@);
    }
}

proof fn lemma_book_entry_is(c: Seq<OrderBook>, sym: Seq<char>, i: int)
    requires
        books_unique(c),
        0 <= i < c.len(),
        c[i].symbol@ == sym,
    ensures
        book_entry(c, sym) == Some(c[i]),
{
    assert(books_has(c, sym));
    let w = choose|w: int| 0 <= w < c.len() && #[trigger] c[w].symbol@ == sym;
    if w < i {
        assert(c[w].symbol@ != c[i].symbol@);
    } else if w > i {
        assert(c[i].symbol@ != c[w].symbol@);
    }
}

proof fn lemma_stamp_is(c: Seq<SequenceStamp>, sym: Seq<char>, i: int)
    requires
        stamps_unique(c),
        0 <= i < c.len(),
        c[i].symbol@ == sym,
    ensures
        stamp_of(c, sym) == Some(c[i].sequence),
{
    assert(stamps_has(c, sym));
    let w = choose|w: int| 0 <= w < c.len() && #[trigger] c[w].symbol@ == sym;
    if w < i {
        assert(c[w].symbol@ != c[i].symbol@);
    } else if w > i {
        assert(c[i].symbol@ != c[w].symbol@);
    }
}

proof fn lemma_series_is(c: Seq<HistoricalSeries>, sym: Seq<char>, tf: TimeFrame, i: int)
    requires
        series_unique(c),
        0 <= i < c.len(),
        c[i].symbol@ == sym,
        c[i].timeframe == tf,
    ensures
        series_of(c, sym, tf) == Some(c[i].candles@),
{
    assert(series_has(c, sym, tf));
    let w = choose|w: int|
        0 <= w < c.len() && #[trigger] c[w].symbol@ == sym && c[w].timeframe == tf;
    if w < i {
        assert(!(c[w].symbol@ == c[i].symbol@ && c[w].timeframe == c[i].timeframe));
    } else if w > i {
        assert(!(c[i].symbol@ == c[w].symbol@ && c[i].timeframe == c[w].timeframe));
    }
}

/// Filtering a unique-by-symbol snapshot cache keeps it unique and
/// invents no rows.
proof fn lemma_cache_filter_unique(c: Seq<CachedMarketData>, sym: Seq<char>)
    requires
        cache_unique(c),
    ensures
        cache_unique(cache_others(c, sym)),
        forall|i: int|
            0 <= i < cache_others(c, sym).len() ==> exists|j: int|
                0 <= j < c.len() && #[trigger] cache_others(c, sym)[i] == c[j],
    decreases c.len(),
{
    reveal_with_fuel(Seq::filter, 2);
    if c.len() > 0 {
        let dl = c.drop_last();
        assert forall|i: int, j: int| 0 <= i < j < dl.len() implies #[trigger] dl[i].data.symbol@
            != #[trigger] dl[j].data.symbol@ by {
            assert(dl[i] == c[i] && dl[j] == c[j]);
        }
        lemma_cache_filter_unique(dl, sym);
        let sub = cache_others(dl, sym);
        let out = cache_others(c, sym);
        assert forall|i: int| 0 <= i < out.len() implies exists|j: int|
            0 <= j < c.len() && #[trigger] out[i] == c[j] by {
            if i < sub.len() {
                assert(out[i] == sub[i]);
                let j = choose|j: int| 0 <= j < dl.len() && #[trigger] sub[i] == dl[j];
                assert(out[i] == c[j]);
            } else {
                assert(out[i] == c[c.len() - 1]);
            }
        }
        assert forall|a: int, b: int| 0 <= a < b < out.len() implies #[trigger] out[
            a].data.symbol@ != #[trigger] out[b].data.symbol@ by {
            if b < sub.len() {
                assert(out[a] == sub[a] && out[b] == sub[b]);
            } else {
                assert(out[a] == sub[a]);
                let j = choose|j: int| 0 <= j < dl.len() && #[trigger] sub[a] == dl[j];
                assert(out[b] == c[c.len() - 1]);
                assert(c[j].data.symbol@ != c[c.len() - 1].data.symbol@);
            }
        }
    }
}

/// The outcome of asking the snapshot cache.
#[derive(Clone, Debug)]
pub enum CacheLookup {
    /// The cached snapshot is within its TTL; no fetch happens.
    Fresh(MarketData),
    /// No fresh entry: the caller should fetch and cache the result.
    NeedsFetch,
}

/// The outcome of asking the historical cache.
#[derive(Clone, Debug)]
pub enum HistoryLookup {
    /// The cached series already holds enough candles.
    Cached(Vec<Candle>),
    NeedsFetch,
}

/// Why a book update was discarded.
#[derive(Clone, Copy, Debug, PartialEq, Eq, Structural)]
pub enum BookError {
    EmptySymbol,
    UnsortedSides,
    CrossedBook,
}

/// What became of one accepted stream message.
#[derive(Clone, Copy, Debug, PartialEq, Eq, Structural)]
pub enum DataUpdateOutcome {
    /// An older sequence number than already applied; dropped.
    SkippedStale,
    QuoteCached,
    QuoteRejected(ValidationError),
    TradeApplied,
    /// A trade for a symbol with no cached snapshot changes nothing.
    TradeIgnored,
    BookUpdated,
    BookRejected(BookError),
    /// A kind this coordinator does not consume, or a payload that does
    /// not fit its kind.
    Ignored,
}

/// Counts over the caches, for diagnostics.
#[derive(Clone, Copy, Debug, PartialEq, Eq, Structural)]
pub struct CacheStats {
    pub total_entries: usize,
    pub total_access_count: u64,
    pub websocket_entries: usize,
    pub mock_entries: usize,
    pub http_entries: usize,
    pub historical_symbols: usize,
    pub order_book_entries: usize,
    pub subscribed_symbols: usize,
}

/// The effect of caching one quote: its snapshot replaces the symbol's
/// row, stamped and tagged as socket-sourced with one access.
pub open spec fn quote_cached_effect(
    pre: Seq<CachedMarketData>,
    post: Seq<CachedMarketData>,
    q: QuoteUpdate,
    now_ms: u64,
) -> bool {
    &&& post.len() >= 1
    &&& post.last().data == market_data_of_quote(q)
    &&& post.last().cached_at_ms == now_ms
    &&& post.last().source == DataSource::WebSocket
    &&& post.last().access_count == 1
    &&& post.last().last_accessed_ms == now_ms
    &&& post.drop_last() == cache_others(pre, q.symbol@)
}

/// The cache coordinator.
pub struct DataService {
    pub cache: Vec<CachedMarketData>,
    pub historical_cache: Vec<HistoricalSeries>,
    pub order_book_cache: Vec<OrderBook>,
    pub cache_duration_ms: u64,
    pub order_book_cache_duration_ms: u64,
    pub use_mock_data: bool,
    pub subscribed_symbols: Vec<String>,
    pub auto_refresh_enabled: bool,
    pub refresh_interval_ms: u64,
    pub websocket_message_cache: Vec<SequenceStamp>,
    pub max_message_age_ms: u64,
    pub max_cache_size: usize,
    pub error_handler: NetworkErrorHandler,
}

impl DataService {
    /// Structural invariant: one row per key in every cache, every
    /// cached snapshot valid, every cached book ordered, uncrossed and
    /// with its derived figures right.
    pub open spec fn wf(self) -> bool {
        &&& cache_unique(self.cache@)
        &&& forall|i: int|
            0 <= i < self.cache@.len() ==> market_data_valid(#[trigger] self.cache@[i].data)
        &&& books_unique(self.order_book_cache@)
        &&& forall|i: int|
            0 <= i < self.order_book_cache@.len() ==> book_sides_ok(
                #[trigger] self.order_book_cache@[i],
            ) && book_derived_ok(self.order_book_cache@[i])
        &&& stamps_unique(self.websocket_message_cache@)
        &&& series_unique(self.historical_cache@)
        &&& symbols_unique(self.subscribed_symbols@)
        &&& self.error_handler.wf()
    }

    /// A coordinator with a one-minute snapshot TTL, a five-second book
    /// TTL, a five-second message window, and room for a thousand
    /// snapshots.
    pub fn new() -> (r: DataService)
        ensures
            r.wf(),
            r.cache@.len() == 0,
            r.historical_cache@.len() == 0,
            r.order_book_cache@.len() == 0,
            r.cache_duration_ms == 60000,
            r.order_book_cache_duration_ms == 5000,
            r.use_mock_data,
            r.subscribed_symbols@.len() == 0,
            r.auto_refresh_enabled,
            r.refresh_interval_ms == 30000,
            r.websocket_message_cache@.len() == 0,
            r.max_message_age_ms == 5000,
            r.max_cache_size == 1000,
    {
        DataService {
            cache: Vec::new(),
            historical_cache: Vec::new(),
            order_book_cache: Vec::new(),
            cache_duration_ms: 60000,
            order_book_cache_duration_ms: 5000,
            use_mock_data: true,
            subscribed_symbols: Vec::new(),
            auto_refresh_enabled: true,
            refresh_interval_ms: 30000,
            websocket_message_cache: Vec::new(),
            max_message_age_ms: 5000,
            max_cache_size: 1000,
            error_handler: NetworkErrorHandler::new(),
        }
    }

    /// Switch between live and simulated data; every cache is dropped
    /// so values of the two sources never mix.
    pub fn set_use_mock_data(&mut self, use_mock: bool)
        requires
            old(self).wf(),
        ensures
            final(self).wf(),
            final(self).use_mock_data == use_mock,
            final(self).cache@.len() == 0,
            final(self).historical_cache@.len() == 0,
            final(self).order_book_cache@.len() == 0,
            final(self).subscribed_symbols@ == old(self).subscribed_symbols@,
    {
        self.use_mock_data = use_mock;
        self.cache = Vec::new();
        self.historical_cache = Vec::new();
        self.order_book_cache = Vec::new();
    }

    /// Register interest in a symbol. Idempotent: a second subscribe for
    /// the same symbol is a no-op success. Returns whether the symbol is
    /// newly subscribed (so the caller should ask the streaming client).
    pub fn subscribe_to_symbol(&mut self, symbol: String) -> (newly: bool)
        requires
            old(self).wf(),
        ensures
            final(self).wf(),
            newly == !symbols_has(old(self).subscribed_symbols@, symbol@),
            symbols_has(final(self).subscribed_symbols@, symbol@),
            newly ==> final(self).subscribed_symbols@ == old(self).subscribed_symbols@.push(
                symbol,
            ),
            !newly ==> *final(self) == *old(self),
    {
        let mut i: usize = 0;
        while i < self.subscribed_symbols.len()
            invariant
                *self == *old(self),
                old(self).wf(),
                i <= self.subscribed_symbols@.len(),
                forall|k: int| 0 <= k < i ==> #[trigger] self.subscribed_symbols@[k]@ != symbol@,
            decreases self.subscribed_symbols@.len() - i,
        {
            if str_eq(self.subscribed_symbols[i].as_str(), symbol.as_str()) {
                return false;
            }
            i = i + 1;
        }
        self.subscribed_symbols.push(symbol);
        proof {
            assert(self.subscribed_symbols@[self.subscribed_symbols@.len() - 1]@ == symbol@);
        }
        true
    }

    /// Forget interest in a symbol. Idempotent: unsubscribing an unknown
    /// symbol is a no-op success. Returns whether it was subscribed.
    pub fn unsubscribe_from_symbol(&mut self, symbol: &str) -> (was: bool)
        requires
            old(self).wf(),
        ensures
            final(self).wf(),
            was == symbols_has(old(self).subscribed_symbols@, symbol@),
            !symbols_has(final(self).subscribed_symbols@, symbol@),
            !was ==> *final(self) == *old(self),
            was ==> exists|i: int|
                0 <= i < old(self).subscribed_symbols@.len() && old(self).subscribed_symbols@[
                    i]@ == symbol@ && final(self).subscribed_symbols@ == old(
                    self,
                ).subscribed_symbols@.remove(i),
    {
        let mut i: usize = 0;
        while i < self.subscribed_symbols.len()
            invariant
                *self == *old(self),
                old(self).wf(),
                i <= self.subscribed_symbols@.len(),
                forall|k: int| 0 <= k < i ==> #[trigger] self.subscribed_symbols@[k]@ != symbol@,
            decreases self.subscribed_symbols@.len() - i,
        {
            if str_eq(self.subscribed_symbols[i].as_str(), symbol) {
                self.subscribed_symbols.remove(i);
                proof {
                    assert forall|k: int|
                        0 <= k < self.subscribed_symbols@.len() implies #[trigger] self.subscribed_symbols@[k]@
                        != symbol@ by {
                        if k < i {
                        } else {
                            assert(self.subscribed_symbols@[k] == old(self).subscribed_symbols@[k
                                + 1]);
                        }
                    }
                }
                return true;
            }
            i = i + 1;
        }
        false
    }

    /// Whether the symbol is currently subscribed.
    pub fn is_subscribed(&self, symbol: &str) -> (r: bool)
        ensures
            r == symbols_has(self.subscribed_symbols@, symbol@),
    {
        let mut i: usize = 0;
        while i < self.subscribed_symbols.len()
            invariant
                i <= self.subscribed_symbols@.len(),
                forall|k: int| 0 <= k < i ==> #[trigger] self.subscribed_symbols@[k]@ != symbol@,
            decreases self.subscribed_symbols@.len() - i,
        {
            if str_eq(self.subscribed_symbols[i].as_str(), symbol) {
                return true;
            }
            i = i + 1;
        }
        false
    }

    /// The index of the snapshot row for a symbol.
    fn find_cache_index(&self, symbol: &str) -> (r: Option<usize>)
        ensures
            r matches Some(i) ==> i < self.cache@.len() && self.cache@[i as int].data.symbol@
                == symbol@,
            r is None ==> !cache_has(self.cache@, symbol@),
    {
        let mut i: usize = 0;
        while i < self.cache.len()
            invariant
                i <= self.cache@.len(),
                forall|k: int| 0 <= k < i ==> #[trigger] self.cache@[k].data.symbol@ != symbol@,
            decreases self.cache@.len() - i,
        {
            if str_eq(self.cache[i].data.symbol.as_str(), symbol) {
                return Some(i);
            }
            i = i + 1;
        }
        None
    }

    /// Serve the cached snapshot while it is fresh; otherwise report
    /// that a fetch is needed. Reading bumps the access record, and
    /// never changes any cached value or its age.
    pub fn get_market_data(&mut self, symbol: &str, now_ms: u64) -> (r: CacheLookup)
        requires
            old(self).wf(),
        ensures
            final(self).wf(),
            r matches CacheLookup::Fresh(d) <==> (cache_entry(old(self).cache@, symbol@) matches
                Some(e) && entry_fresh(e, now_ms, old(self).cache_duration_ms)),
            r matches CacheLookup::Fresh(d) ==> cache_entry(old(self).cache@, symbol@) matches
                Some(e) && d == e.data,
            *final(self) == (DataService { cache: final(self).cache, ..*old(self) }),
            final(self).cache@.len() == old(self).cache@.len(),
            forall|i: int|
                0 <= i < final(self).cache@.len() ==> {
                    &&& (#[trigger] final(self).cache@[i]).data == old(self).cache@[i].data
                    &&& final(self).cache@[i].cached_at_ms == old(self).cache@[i].cached_at_ms
                    &&& final(self).cache@[i].source == old(self).cache@[i].source
                },
            cache_entry(final(self).cache@, symbol@) matches Some(e2) ==> (cache_entry(
                old(self).cache@,
                symbol@,
            ) matches Some(e1) && e2.data == e1.data && e2.cached_at_ms == e1.cached_at_ms
                && e2.source == e1.source),
            !cache_has(old(self).cache@, symbol@) ==> *final(self) == *old(self),
            cache_has(old(self).cache@, symbol@) ==> exists|i: int|
                {
                    &&& 0 <= i < old(self).cache@.len()
                    &&& old(self).cache@[i].data.symbol@ == symbol@
                    &&& final(self).cache@ == old(self).cache@.update(
                        i,
                        #[trigger] final(self).cache@[i],
                    )
                    &&& final(self).cache@[i] == (CachedMarketData {
                        access_count: if old(self).cache@[i].access_count < u32::MAX {
                            (old(self).cache@[i].access_count + 1) as u32
                        } else {
                            old(self).cache@[i].access_count
                        },
                        last_accessed_ms: now_ms,
                        ..old(self).cache@[i]
                    })
                },
    {
        let idx = match self.find_cache_index(symbol) {
            Some(i) => i,
            None => {
                proof {
                    assert(!cache_has(self.cache@, symbol@));
                }
                return CacheLookup::NeedsFetch;
            },
        };
        let mut row = self.cache.remove(idx);
        proof {
            lemma_cache_entry_is(old(self).cache@, symbol@, idx as int);
        }
        if row.access_count < u32::MAX {
            row.access_count = row.access_count + 1;
        }
        row.last_accessed_ms = now_ms;
        let fresh = row.cached_at_ms <= now_ms && now_ms - row.cached_at_ms
            < self.cache_duration_ms;
        let result = if fresh {
            CacheLookup::Fresh(duplicate_market_data(&row.data))
        } else {
            CacheLookup::NeedsFetch
        };
        self.cache.insert(idx, row);
        proof {
            assert(self.cache@ =~= old(self).cache@.update(idx as int, self.cache@[idx as int]));
            if cache_has(self.cache@, symbol@) {
                lemma_cache_entry_is(self.cache@, symbol@, idx as int);
            }
        }
        result
    }

    /// The cached snapshot of a symbol, fresh or not.
    pub fn get_cached_data(&self, symbol: &str) -> (r: Option<&MarketData>)
        requires
            self.wf(),
        ensures
            r is Some <==> cache_has(self.cache@, symbol@),
            r matches Some(d) ==> (cache_entry(self.cache@, symbol@) matches Some(e) && *d
                == e.data && market_data_valid(*d)),
    {
        match self.find_cache_index(symbol) {
            Some(i) => {
                proof {
                    lemma_cache_entry_is(self.cache@, symbol@, i as int);
                }
                Some(&self.cache[i].data)
            },
            None => None,
        }
    }

    /// The provenance of the cached snapshot of a symbol.
    pub fn get_cached_source(&self, symbol: &str) -> (r: Option<DataSource>)
        requires
            self.wf(),
        ensures
            r is Some <==> cache_has(self.cache@, symbol@),
            r matches Some(s) ==> (cache_entry(self.cache@, symbol@) matches Some(e) && s
                == e.source),
    {
        match self.find_cache_index(symbol) {
            Some(i) => {
                proof {
                    lemma_cache_entry_is(self.cache@, symbol@, i as int);
                }
                Some(self.cache[i].source)
            },
            None => None,
        }
    }

    /// Check a snapshot against the insert rules: a symbol, an
    /// uncrossed quote when both sides are present, an ordered day
    /// range.
    pub fn validate_market_data(&self, data: &MarketData) -> (r: Result<(), ValidationError>)
        ensures
            data.symbol@.len() == 0 ==> r == Err::<(), ValidationError>(
                ValidationError::EmptySymbol,
            ),
            data.symbol@.len() > 0 && (data.bid matches Some(b) && data.ask matches Some(a) && b
                >= a) ==> r == Err::<(), ValidationError>(ValidationError::InvalidSpread),
            data.symbol@.len() > 0 && !(data.bid matches Some(b) && data.ask matches Some(a) && b
                >= a) && data.day_high < data.day_low ==> r == Err::<(), ValidationError>(
                ValidationError::DayRangeInvalid,
            ),
            r is Ok <==> market_data_valid(*data),
    {
        if data.symbol.as_str().is_empty() {
            return Err(ValidationError::EmptySymbol);
        }
        if let (Some(b), Some(a)) = (data.bid, data.ask) {
            if b >= a {
                return Err(ValidationError::InvalidSpread);
            }
        }
        if data.day_high < data.day_low {
            return Err(ValidationError::DayRangeInvalid);
        }
        Ok(())
    }

    /// Insert or refresh the snapshot of a symbol after validating it;
    /// a failing record is discarded, never cached.
    pub fn cache_market_data(&mut self, data: MarketData, source: DataSource, now_ms: u64) -> (r:
        Result<(), ValidationError>)
        requires
            old(self).wf(),
        ensures
            final(self).wf(),
            r is Ok <==> market_data_valid(data),
            r is Err ==> *final(self) == *old(self),
            r is Ok ==> {
                &&& final(self).cache@.len() >= 1
                &&& final(self).cache@.last().data == data
                &&& final(self).cache@.last().cached_at_ms == now_ms
                &&& final(self).cache@.last().source == source
                &&& final(self).cache@.last().access_count == 1
                &&& final(self).cache@.last().last_accessed_ms == now_ms
                &&& final(self).cache@.drop_last() == cache_others(old(self).cache@, data.symbol@)
                &&& cache_entry(final(self).cache@, data.symbol@) == Some(
                    final(self).cache@.last(),
                )
            },
            *final(self) == (DataService { cache: final(self).cache, ..*old(self) }),
    {
        if let Err(e) = self.validate_market_data(&data) {
            return Err(e);
        }
        let ghost sym = data.symbol@;
        let mut kept: Vec<CachedMarketData> = Vec::new();
        let mut i: usize = 0;
        while i < self.cache.len()
            invariant
                i <= self.cache@.len(),
                data.symbol@ == sym,
                kept@ == cache_others(self.cache@.subrange(0, i as int), sym),
            decreases self.cache@.len() - i,
        {
            proof {
                reveal_with_fuel(Seq::filter, 2);
                let prefix = self.cache@.subrange(0, i as int + 1);
                assert(prefix.drop_last() =~= self.cache@.subrange(0, i as int));
                assert(prefix.last() == self.cache@[i as int]);
            }
            let row = &self.cache[i];
            if !str_eq(row.data.symbol.as_str(), data.symbol.as_str()) {
                let copy = CachedMarketData {
                    data: duplicate_market_data(&row.data),
                    cached_at_ms: row.cached_at_ms,
                    source: row.source,
                    access_count: row.access_count,
                    last_accessed_ms: row.last_accessed_ms,
                };
                proof {
                    assert(copy == self.cache@[i as int]);
                }
                kept.push(copy);
            }
            i = i + 1;
        }
        proof {
            assert(self.cache@.subrange(0, self.cache@.len() as int) =~= self.cache@);
            lemma_cache_filter_unique(self.cache@, sym);
        }
        kept.push(
            CachedMarketData {
                data,
                cached_at_ms: now_ms,
                source,
                access_count: 1,
                last_accessed_ms: now_ms,
            },
        );
        proof {
            let t = kept@;
            let others = cache_others(old(self).cache@, sym);
            assert(t.drop_last() =~= others);
            assert forall|a: int, b: int| 0 <= a < b < t.len() implies #[trigger] t[
                a].data.symbol@ != #[trigger] t[b].data.symbol@ by {
                if b == t.len() - 1 {
                    assert(t[a] == others[a]);
                } else {
                    assert(t[a] == others[a] && t[b] == others[b]);
                }
            }
            lemma_cache_entry_is(t, sym, t.len() - 1);
        }
        self.cache = kept;
        Ok(())
    }
}

/// A snapshot row kept by the retention sweep at `now_ms`.
pub open spec fn row_kept(e: CachedMarketData, now_ms: u64, ttl_ms: u64) -> bool {
    e.cached_at_ms > sat_sub(now_ms, ttl_ms)
}

/// The snapshot rows that survive the TTL part of the sweep.
pub open spec fn fresh_rows(c: Seq<CachedMarketData>, now_ms: u64, ttl_ms: u64) -> Seq<
    CachedMarketData,
> {
    c.filter(|e: CachedMarketData| row_kept(e, now_ms, ttl_ms))
}

/// A book kept by the retention sweep at `now_ms`.
pub open spec fn book_kept(b: OrderBook, now_ms: u64) -> bool {
    b.timestamp_ms > sat_sub(now_ms, 60000)
}

pub open spec fn fresh_books(c: Seq<OrderBook>, now_ms: u64) -> Seq<OrderBook> {
    c.filter(|b: OrderBook| book_kept(b, now_ms))
}

/// A sequence stamp kept by the retention sweep at `now_ms`.
pub open spec fn stamp_kept(s: SequenceStamp, now_ms: u64, max_age_ms: u64) -> bool {
    s.stored_at_ms > sat_sub(now_ms, max_age_ms)
}

pub open spec fn fresh_stamps_kept(c: Seq<SequenceStamp>, now_ms: u64, max_age_ms: u64) -> Seq<
    SequenceStamp,
> {
    c.filter(|s: SequenceStamp| stamp_kept(s, now_ms, max_age_ms))
}

/// `e` is one of the rows of `c`.
pub open spec fn row_of(c: Seq<CachedMarketData>, e: CachedMarketData) -> bool {
    exists|j: int| 0 <= j < c.len() && #[trigger] c[j] == e
}

/// Every row of `a` is a row of `b`.
pub open spec fn rows_from(a: Seq<CachedMarketData>, b: Seq<CachedMarketData>) -> bool {
    forall|k: int| 0 <= k < a.len() ==> row_of(b, #[trigger] a[k])
}

/// `e` is one of the books of `c`.
pub open spec fn book_of(c: Seq<OrderBook>, e: OrderBook) -> bool {
    exists|j: int| 0 <= j < c.len() && #[trigger] c[j] == e
}

pub open spec fn books_from(a: Seq<OrderBook>, b: Seq<OrderBook>) -> bool {
    forall|k: int| 0 <= k < a.len() ==> book_of(b, #[trigger] a[k])
}

/// `e` is one of the stamps of `c`.
pub open spec fn stamp_row_of(c: Seq<SequenceStamp>, e: SequenceStamp) -> bool {
    exists|j: int| 0 <= j < c.len() && #[trigger] c[j] == e
}

pub open spec fn stamps_from(a: Seq<SequenceStamp>, b: Seq<SequenceStamp>) -> bool {
    forall|k: int| 0 <= k < a.len() ==> stamp_row_of(b, #[trigger] a[k])
}

impl DataService {
    /// The periodic sweep: snapshot rows, books and sequence stamps
    /// older than their retention leave; if more snapshots than
    /// `max_cache_size` remain, the least recently accessed leave until
    /// the limit holds; every historical series is trimmed to a
    /// thousand candles.
    pub fn cleanup_stale_data(&mut self, now_ms: u64)
        requires
            old(self).wf(),
        ensures
            final(self).wf(),
            final(self).cache@.len() <= old(self).max_cache_size,
            forall|i: int|
                0 <= i < final(self).cache@.len() ==> row_kept(
                    #[trigger] final(self).cache@[i],
                    now_ms,
                    old(self).cache_duration_ms,
                ),
            rows_from(final(self).cache@, old(self).cache@),
            ({
                let fresh = fresh_rows(old(self).cache@, now_ms, old(self).cache_duration_ms);
                &&& final(self).cache@.len() == crate::policy::spec_min_nat(
                    fresh.len(),
                    old(self).max_cache_size as nat,
                )
                &&& forall|j: int|
                    0 <= j < fresh.len() && !cache_has(
                        final(self).cache@,
                        #[trigger] fresh[j].data.symbol@,
                    ) ==> forall|k: int|
                        0 <= k < final(self).cache@.len()
                            ==> (#[trigger] final(self).cache@[k]).last_accessed_ms >= fresh[
                            j].last_accessed_ms
            }),
            final(self).order_book_cache@ == fresh_books(old(self).order_book_cache@, now_ms),
            final(self).websocket_message_cache@ == fresh_stamps_kept(
                old(self).websocket_message_cache@,
                now_ms,
                old(self).max_message_age_ms,
            ),
            final(self).historical_cache@.len() == old(self).historical_cache@.len(),
            forall|i: int|
                0 <= i < final(self).historical_cache@.len() ==> {
                    &&& (#[trigger] final(self).historical_cache@[i]).symbol@ == old(
                        self,
                    ).historical_cache@[i].symbol@
                    &&& final(self).historical_cache@[i].timeframe == old(
                        self,
                    ).historical_cache@[i].timeframe
                    &&& final(self).historical_cache@[i].candles@ == if old(
                        self,
                    ).historical_cache@[i].candles@.len() <= 1000 {
                        old(self).historical_cache@[i].candles@
                    } else {
                        old(self).historical_cache@[i].candles@.subrange(0, 1000)
                    }
                },
            *final(self) == (DataService {
                cache: final(self).cache,
                historical_cache: final(self).historical_cache,
                order_book_cache: final(self).order_book_cache,
                websocket_message_cache: final(self).websocket_message_cache,
                ..*old(self)
            }),
    {
        let ghost pre = self.cache@;
        let ttl = self.cache_duration_ms;
        let cutoff = if now_ms >= ttl {
            now_ms - ttl
        } else {
            0
        };
        let mut i: usize = 0;
        let ghost mut j: int = 0;
        while i < self.cache.len()
            invariant
                old(self).wf(),
                ttl == old(self).cache_duration_ms,
                cutoff == sat_sub(now_ms, ttl),
                0 <= j <= pre.len(),
                i == fresh_rows(pre.subrange(0, j), now_ms, ttl).len(),
                self.cache@ =~= fresh_rows(pre.subrange(0, j), now_ms, ttl) + pre.subrange(
                    j,
                    pre.len() as int,
                ),
                *self == (DataService { cache: self.cache, ..*old(self) }),
                pre == old(self).cache@,
            decreases pre.len() - j,
        {
            proof {
                reveal_with_fuel(Seq::filter, 2);
                let prefix = pre.subrange(0, j + 1);
                assert(prefix.drop_last() =~= pre.subrange(0, j));
                assert(prefix.last() == pre[j]);
                assert(self.cache@[i as int] == pre[j]);
            }
            if self.cache[i].cached_at_ms > cutoff {
                i = i + 1;
            } else {
                self.cache.remove(i);
            }
            proof {
                j = j + 1;
                assert(self.cache@ =~= fresh_rows(pre.subrange(0, j), now_ms, ttl) + pre.subrange(
                    j,
                    pre.len() as int,
                ));
            }
        }
        proof {
            assert(pre.subrange(0, pre.len() as int) =~= pre);
            assert(pre.subrange(pre.len() as int, pre.len() as int) =~= Seq::<
                CachedMarketData,
            >::empty());
            assert(self.cache@ =~= fresh_rows(pre, now_ms, ttl));
        }
        let ghost fresh = self.cache@;
        proof {
            lemma_fresh_rows_from(pre, now_ms, ttl);
            assert forall|k: int| 0 <= k < fresh.len() implies row_of(
                old(self).cache@,
                #[trigger] fresh[k],
            ) by {
                assert(fresh[k] == fresh_rows(pre, now_ms, ttl)[k]);
                assert(row_of(pre, fresh_rows(pre, now_ms, ttl)[k]));
            }
            assert forall|k: int| 0 <= k < self.cache@.len() implies row_of(
                fresh,
                #[trigger] self.cache@[k],
            ) by {
                assert(fresh[k] == self.cache@[k]);
            }
            assert forall|k: int| 0 <= k < fresh.len() implies market_data_valid(
                #[trigger] fresh[k].data,
            ) && row_kept(fresh[k], now_ms, ttl) by {
                assert(fresh[k] == fresh_rows(pre, now_ms, ttl)[k]);
            }
        }
        while self.cache.len() > self.max_cache_size
            invariant
                old(self).wf(),
                fresh == fresh_rows(old(self).cache@, now_ms, old(self).cache_duration_ms),
                cache_unique(fresh),
                forall|k: int|
                    0 <= k < fresh.len() ==> market_data_valid(#[trigger] fresh[k].data),
                rows_from(fresh, old(self).cache@),
                forall|k: int|
                    0 <= k < fresh.len() ==> row_kept(
                        #[trigger] fresh[k],
                        now_ms,
                        old(self).cache_duration_ms,
                    ),
                cache_unique(self.cache@),
                rows_from(self.cache@, fresh),
                forall|m: int|
                    0 <= m < fresh.len() && !cache_has(self.cache@, #[trigger] fresh[
                        m].data.symbol@) ==> forall|k: int|
                        0 <= k < self.cache@.len()
                            ==> (#[trigger] self.cache@[k]).last_accessed_ms >= fresh[
                            m].last_accessed_ms,
                self.cache@.len() <= fresh.len(),
                fresh.len() > old(self).max_cache_size ==> self.cache@.len() >= old(
                    self,
                ).max_cache_size,
                fresh.len() <= old(self).max_cache_size ==> self.cache@ == fresh,
                *self == (DataService { cache: self.cache, ..*old(self) }),
            decreases self.cache@.len(),
        {
            let ghost before = self.cache@;
            let mut m: usize = 0;
            let mut k: usize = 1;
            while k < self.cache.len()
                invariant
                    *self == (DataService { cache: self.cache, ..*old(self) }),
                    self.cache@.len() > 0,
                    m < k <= self.cache@.len(),
                    forall|x: int|
                        0 <= x < k ==> self.cache@[m as int].last_accessed_ms
                            <= (#[trigger] self.cache@[x]).last_accessed_ms,
                decreases self.cache@.len() - k,
            {
                if self.cache[k].last_accessed_ms < self.cache[m].last_accessed_ms {
                    m = k;
                }
                k = k + 1;
            }
            self.cache.remove(m);
            proof {
                lemma_lru_step(before, fresh, self.cache@, m as int);
            }
        }
        let ghost mid1 = *self;
        let ghost preb = self.order_book_cache@;
        let book_cutoff = if now_ms >= 60000 {
            now_ms - 60000
        } else {
            0
        };
        let mut bi: usize = 0;
        let ghost mut bj: int = 0;
        while bi < self.order_book_cache.len()
            invariant
                *self == (DataService { order_book_cache: self.order_book_cache, ..mid1 }),
                preb == mid1.order_book_cache@,
                book_cutoff == sat_sub(now_ms, 60000),
                0 <= bj <= preb.len(),
                bi == fresh_books(preb.subrange(0, bj), now_ms).len(),
                self.order_book_cache@ =~= fresh_books(preb.subrange(0, bj), now_ms)
                    + preb.subrange(bj, preb.len() as int),
            decreases preb.len() - bj,
        {
            proof {
                reveal_with_fuel(Seq::filter, 2);
                let prefix = preb.subrange(0, bj + 1);
                assert(prefix.drop_last() =~= preb.subrange(0, bj));
                assert(prefix.last() == preb[bj]);
                assert(self.order_book_cache@[bi as int] == preb[bj]);
            }
            if self.order_book_cache[bi].timestamp_ms > book_cutoff {
                bi = bi + 1;
            } else {
                self.order_book_cache.remove(bi);
            }
            proof {
                bj = bj + 1;
                assert(self.order_book_cache@ =~= fresh_books(preb.subrange(0, bj), now_ms)
                    + preb.subrange(bj, preb.len() as int));
            }
        }
        proof {
            assert(preb.subrange(0, preb.len() as int) =~= preb);
            assert(preb.subrange(preb.len() as int, preb.len() as int) =~= Seq::<
                OrderBook,
            >::empty());
            assert(self.order_book_cache@ =~= fresh_books(preb, now_ms));
            lemma_fresh_books_from(preb, now_ms);
        }
        let ghost mid2 = *self;
        let ghost pres = self.websocket_message_cache@;
        let max_age = self.max_message_age_ms;
        let stamp_cutoff = if now_ms >= max_age {
            now_ms - max_age
        } else {
            0
        };
        let mut si: usize = 0;
        let ghost mut sj: int = 0;
        while si < self.websocket_message_cache.len()
            invariant
                *self == (DataService {
                    websocket_message_cache: self.websocket_message_cache,
                    ..mid2
                }),
                pres == mid2.websocket_message_cache@,
                max_age == mid2.max_message_age_ms,
                stamp_cutoff == sat_sub(now_ms, max_age),
                0 <= sj <= pres.len(),
                si == fresh_stamps_kept(pres.subrange(0, sj), now_ms, max_age).len(),
                self.websocket_message_cache@ =~= fresh_stamps_kept(
                    pres.subrange(0, sj),
                    now_ms,
                    max_age,
                ) + pres.subrange(sj, pres.len() as int),
            decreases pres.len() - sj,
        {
            proof {
                reveal_with_fuel(Seq::filter, 2);
                let prefix = pres.subrange(0, sj + 1);
                assert(prefix.drop_last() =~= pres.subrange(0, sj));
                assert(prefix.last() == pres[sj]);
                assert(self.websocket_message_cache@[si as int] == pres[sj]);
            }
            if self.websocket_message_cache[si].stored_at_ms > stamp_cutoff {
                si = si + 1;
            } else {
                self.websocket_message_cache.remove(si);
            }
            proof {
                sj = sj + 1;
                assert(self.websocket_message_cache@ =~= fresh_stamps_kept(
                    pres.subrange(0, sj),
                    now_ms,
                    max_age,
                ) + pres.subrange(sj, pres.len() as int));
            }
        }
        proof {
            assert(pres.subrange(0, pres.len() as int) =~= pres);
            assert(pres.subrange(pres.len() as int, pres.len() as int) =~= Seq::<
                SequenceStamp,
            >::empty());
            assert(self.websocket_message_cache@ =~= fresh_stamps_kept(pres, now_ms, max_age));
            lemma_fresh_stamps_from(pres, now_ms, max_age);
        }
        let ghost mid3 = *self;
        let ghost preh = self.historical_cache@;
        let mut hi: usize = 0;
        while hi < self.historical_cache.len()
            invariant
                *self == (DataService { historical_cache: self.historical_cache, ..mid3 }),
                preh == mid3.historical_cache@,
                self.historical_cache@.len() == preh.len(),
                hi <= preh.len(),
                forall|k: int|
                    hi <= k < preh.len() ==> #[trigger] self.historical_cache@[k] == preh[k],
                forall|k: int|
                    0 <= k < hi ==> {
                        &&& (#[trigger] self.historical_cache@[k]).symbol@ == preh[k].symbol@
                        &&& self.historical_cache@[k].timeframe == preh[k].timeframe
                        &&& self.historical_cache@[k].candles@ == if preh[k].candles@.len()
                            <= 1000 {
                            preh[k].candles@
                        } else {
                            preh[k].candles@.subrange(0, 1000)
                        }
                    },
            decreases preh.len() - hi,
        {
            let mut s = self.historical_cache.remove(hi);
            s.candles.truncate(1000);
            self.historical_cache.insert(hi, s);
            proof {
                assert forall|k: int| hi + 1 <= k < preh.len() implies #[trigger] self.historical_cache@[k]
                    == preh[k] by {
                }
            }
            hi = hi + 1;
        }
        proof {
            let c = self.historical_cache@;
            assert forall|a: int, b: int| 0 <= a < b < c.len() implies !(#[trigger] c[a].symbol@
                == #[trigger] c[b].symbol@ && c[a].timeframe == c[b].timeframe) by {
                assert(c[a].symbol@ == preh[a].symbol@ && c[a].timeframe == preh[a].timeframe);
                assert(c[b].symbol@ == preh[b].symbol@ && c[b].timeframe == preh[b].timeframe);
            }
            assert forall|i: int| 0 <= i < self.cache@.len() implies row_kept(
                #[trigger] self.cache@[i],
                now_ms,
                old(self).cache_duration_ms,
            ) && market_data_valid(self.cache@[i].data) && row_of(
                old(self).cache@,
                self.cache@[i],
            ) by {
                assert(row_of(fresh, self.cache@[i]));
                let j = choose|j: int| 0 <= j < fresh.len() && #[trigger] fresh[j] == self.cache@[
                    i];
                assert(row_of(old(self).cache@, fresh[j]));
            }
            assert forall|i: int| 0 <= i < self.order_book_cache@.len() implies book_sides_ok(
                #[trigger] self.order_book_cache@[i],
            ) && book_derived_ok(self.order_book_cache@[i]) by {
                assert(book_of(preb, self.order_book_cache@[i]));
                let j = choose|j: int|
                    0 <= j < preb.len() && #[trigger] preb[j] == self.order_book_cache@[i];
                assert(preb[j] == old(self).order_book_cache@[j]);
            }
        }
    }
}

/// The summed access counts of the snapshot rows.
pub open spec fn total_accesses(c: Seq<CachedMarketData>) -> int
    decreases c.len(),
{
    if c.len() == 0 {
        0
    } else {
        total_accesses(c.drop_last()) + c.last().access_count
    }
}

/// The rows tagged with the given provenance.
pub open spec fn rows_with_source(c: Seq<CachedMarketData>, s: DataSource) -> Seq<
    CachedMarketData,
> {
    c.filter(|e: CachedMarketData| e.source == s)
}

/// Every row carries exactly one of the three provenances, so the
/// per-provenance counts partition the cache.
proof fn lemma_sources_partition(c: Seq<CachedMarketData>)
    ensures
        rows_with_source(c, DataSource::WebSocket).len() + rows_with_source(
            c,
            DataSource::Mock,
        ).len() + rows_with_source(c, DataSource::Http).len() == c.len(),
    decreases c.len(),
{
    reveal_with_fuel(Seq::filter, 2);
    if c.len() > 0 {
        lemma_sources_partition(c.drop_last());
    }
}

impl DataService {
    /// Entry counts per cache, per-provenance counts, and the total
    /// access count, saturating.
    pub fn get_cache_stats(&self) -> (r: CacheStats)
        ensures
            r.total_entries == self.cache@.len(),
            r.total_access_count as int == if total_accesses(self.cache@) <= u64::MAX as int {
                total_accesses(self.cache@)
            } else {
                u64::MAX as int
            },
            r.websocket_entries == rows_with_source(self.cache@, DataSource::WebSocket).len(),
            r.mock_entries == rows_with_source(self.cache@, DataSource::Mock).len(),
            r.http_entries == rows_with_source(self.cache@, DataSource::Http).len(),
            r.websocket_entries + r.mock_entries + r.http_entries == r.total_entries,
            r.historical_symbols == self.historical_cache@.len(),
            r.order_book_entries == self.order_book_cache@.len(),
            r.subscribed_symbols == self.subscribed_symbols@.len(),
    {
        proof {
            lemma_sources_partition(self.cache@);
        }
        let mut total_access_count: u64 = 0;
        let mut websocket_entries: usize = 0;
        let mut mock_entries: usize = 0;
        let mut http_entries: usize = 0;
        let mut i: usize = 0;
        while i < self.cache.len()
            invariant
                i <= self.cache@.len(),
                total_access_count as int == if total_accesses(self.cache@.subrange(0, i as int))
                    <= u64::MAX as int {
                    total_accesses(self.cache@.subrange(0, i as int))
                } else {
                    u64::MAX as int
                },
                websocket_entries == rows_with_source(
                    self.cache@.subrange(0, i as int),
                    DataSource::WebSocket,
                ).len(),
                mock_entries == rows_with_source(
                    self.cache@.subrange(0, i as int),
                    DataSource::Mock,
                ).len(),
                http_entries == rows_with_source(
                    self.cache@.subrange(0, i as int),
                    DataSource::Http,
                ).len(),
                websocket_entries <= i && mock_entries <= i && http_entries <= i,
            decreases self.cache@.len() - i,
        {
            proof {
                reveal_with_fuel(Seq::filter, 2);
                let prefix = self.cache@.subrange(0, i as int + 1);
                assert(prefix.drop_last() =~= self.cache@.subrange(0, i as int));
                assert(prefix.last() == self.cache@[i as int]);
            }
            let row = &self.cache[i];
            let add = row.access_count as u64;
            total_access_count = if total_access_count <= u64::MAX - add {
                total_access_count + add
            } else {
                u64::MAX
            };
            match row.source {
                DataSource::WebSocket => {
                    websocket_entries = websocket_entries + 1;
                },
                DataSource::Mock => {
                    mock_entries = mock_entries + 1;
                },
                DataSource::Http => {
                    http_entries = http_entries + 1;
                },
            }
            i = i + 1;
        }
        proof {
            assert(self.cache@.subrange(0, self.cache@.len() as int) =~= self.cache@);
        }
        CacheStats {
            total_entries: self.cache.len(),
            total_access_count,
            websocket_entries,
            mock_entries,
            http_entries,
            historical_symbols: self.historical_cache.len(),
            order_book_entries: self.order_book_cache.len(),
            subscribed_symbols: self.subscribed_symbols.len(),
        }
    }

    /// Configure the snapshot TTL.
    pub fn set_cache_duration(&mut self, duration_ms: u64)
        ensures
            *final(self) == (DataService { cache_duration_ms: duration_ms, ..*old(self) }),
    {
        self.cache_duration_ms = duration_ms;
    }

    /// Switch the periodic refresh on or off.
    pub fn set_auto_refresh(&mut self, enabled: bool)
        ensures
            *final(self) == (DataService { auto_refresh_enabled: enabled, ..*old(self) }),
    {
        self.auto_refresh_enabled = enabled;
    }

    /// Configure the refresh cadence.
    pub fn set_refresh_interval(&mut self, interval_ms: u64)
        ensures
            *final(self) == (DataService { refresh_interval_ms: interval_ms, ..*old(self) }),
    {
        self.refresh_interval_ms = interval_ms;
    }

    /// Gate a fetch on the rate limit: an admitted request is recorded
    /// against the window; a refusal carries the time until the window
    /// frees up and flips the status to rate limited.
    pub fn before_network_operation(&mut self, now_ms: u64) -> (r: Result<(), NetworkError>)
        requires
            old(self).wf(),
        ensures
            final(self).wf(),
            r is Ok <==> crate::policy::fresh_stamps(
                old(self).error_handler.rate_limiter.request_timestamps@,
                now_ms,
                old(self).error_handler.rate_limiter.window_duration_ms,
            ).len() < old(self).error_handler.rate_limiter.max_requests_per_window,
            r is Ok ==> final(self).error_handler == (crate::policy::NetworkErrorHandler {
                rate_limiter: final(self).error_handler.rate_limiter,
                ..old(self).error_handler
            }),
            r is Ok ==> final(self).error_handler.rate_limiter == (crate::policy::RateLimiter {
                request_timestamps: final(self).error_handler.rate_limiter.request_timestamps,
                ..old(self).error_handler.rate_limiter
            }),
            r is Ok ==> final(self).error_handler.rate_limiter.request_timestamps@
                == crate::policy::fresh_stamps(
                old(self).error_handler.rate_limiter.request_timestamps@,
                now_ms,
                old(self).error_handler.rate_limiter.window_duration_ms,
            ).push(now_ms),
            r is Err ==> (r->Err_0 matches NetworkError::RateLimitExceeded { retry_after_ms, .. }
                && retry_after_ms <= old(self).error_handler.rate_limiter.window_duration_ms
                && final(self).error_handler.connection_status
                == (ConnectionStatus::RateLimited { retry_after_ms })),
            *final(self) == (DataService { error_handler: final(self).error_handler, ..*old(self) }),
            final(self).cache@ == old(self).cache@,
    {
        self.error_handler.check_rate_limit(now_ms)
    }

    /// Settle a fetch: a success resets the failure policy and brings
    /// an offline or degraded status back online; a failure is
    /// classified as a connection failure — status offline, failure
    /// streak and backoff advanced, the error recorded in the history —
    /// and yields the strategy the configuration calls for.
    pub fn after_network_operation(
        &mut self,
        error_message: Option<String>,
        now_ms: u64,
    ) -> (r: Option<crate::policy::ErrorHandlingStrategy>)
        requires
            old(self).wf(),
        ensures
            final(self).wf(),
            error_message is None ==> {
                &&& r is None
                &&& final(self).error_handler.rate_limiter.consecutive_failures == 0
                &&& final(self).error_handler.rate_limiter.current_backoff_ms
                    == crate::policy::BASE_BACKOFF_MS
                &&& final(self).error_handler.error_history@ == old(
                    self,
                ).error_handler.error_history@
                &&& (old(self).error_handler.connection_status is Offline || old(
                    self,
                ).error_handler.connection_status is Degraded)
                    ==> final(self).error_handler.connection_status is Online && !final(self).error_handler.offline_mode_enabled
                &&& !(old(self).error_handler.connection_status is Offline || old(
                    self,
                ).error_handler.connection_status is Degraded)
                    ==> final(self).error_handler.connection_status == old(
                    self,
                ).error_handler.connection_status
            },
            error_message matches Some(m) ==> {
                let failure = NetworkError::ConnectionFailed {
                    message: m,
                    retry_after_ms: Some(5000u64),
                };
                &&& final(self).error_handler.connection_status is Offline
                &&& final(self).error_handler.rate_limiter.consecutive_failures
                    == crate::policy::failures_after(old(self).error_handler.rate_limiter)
                &&& final(self).error_handler.rate_limiter.current_backoff_ms
                    == crate::policy::backoff_after(old(self).error_handler.rate_limiter)
                &&& final(self).error_handler.error_history@ == crate::policy::capped_history(
                    old(self).error_handler.error_history@.push((failure, now_ms)),
                    old(self).error_handler.max_error_history as nat,
                )
                &&& old(self).error_handler.auto_retry_enabled ==> r == Some(
                    crate::policy::ErrorHandlingStrategy::RetryWithBackoff {
                        delay_ms: 5000u64,
                        max_attempts: old(self).error_handler.max_retry_attempts,
                    },
                )
                &&& !old(self).error_handler.auto_retry_enabled && old(
                    self,
                ).error_handler.fallback_to_cache_enabled ==> r == Some(
                    crate::policy::ErrorHandlingStrategy::FallbackToCache,
                )
                &&& !old(self).error_handler.auto_retry_enabled && !old(
                    self,
                ).error_handler.fallback_to_cache_enabled ==> (r matches Some(s) && (s matches
                crate::policy::ErrorHandlingStrategy::ShowError { user_message } && user_message@
                    == crate::policy::describe_error(failure)))
                &&& r is Some
            },
            *final(self) == (DataService { error_handler: final(self).error_handler, ..*old(self) }),
            final(self).cache@ == old(self).cache@,
    {
        match error_message {
            None => {
                self.error_handler.record_success();
                None
            },
            Some(message) => {
                let error = NetworkError::ConnectionFailed {
                    message,
                    retry_after_ms: Some(5000),
                };
                Some(self.error_handler.handle_network_error(error, now_ms))
            },
        }
    }

    /// The failure policy itself, for callers that inspect it.
    pub fn get_error_handler(&self) -> (r: &NetworkErrorHandler)
        ensures
            r == self.error_handler,
    {
        &self.error_handler
    }

    /// The user-facing connection status of the failure policy.
    pub fn get_connection_status(&self) -> (r: &ConnectionStatus)
        ensures
            r == self.error_handler.connection_status,
    {
        self.error_handler.get_connection_status()
    }

    /// Whether the failure policy has switched to cached data only.
    pub fn is_offline(&self) -> (r: bool)
        ensures
            r == self.error_handler.offline_mode_enabled,
    {
        self.error_handler.is_offline_mode()
    }
}

/// Cache freshness: while a snapshot stays within its TTL and no update
/// intervenes, every lookup finds the same entry with the same data, so
/// two reads in the window return identical snapshots and neither
/// triggers a fetch (`get_market_data` reports a fetch only when no
/// fresh entry exists, and it never changes cached data or its age).
pub proof fn law_cache_freshness(
    c1: Seq<CachedMarketData>,
    c2: Seq<CachedMarketData>,
    sym: Seq<char>,
    t2: u64,
    ttl: u64,
)
    requires
        cache_unique(c1),
        cache_unique(c2),
        c1.len() == c2.len(),
        forall|i: int|
            0 <= i < c1.len() ==> (#[trigger] c2[i]).data == c1[i].data && c2[i].cached_at_ms
                == c1[i].cached_at_ms,
        cache_entry(c1, sym) matches Some(e) && e.cached_at_ms <= t2 && t2 - e.cached_at_ms < ttl,
    ensures
        cache_entry(c2, sym) matches Some(e2) && e2.data == cache_entry(c1, sym)->Some_0.data
            && entry_fresh(e2, t2, ttl),
{
    let i = choose|i: int| 0 <= i < c1.len() && #[trigger] c1[i].data.symbol@ == sym;
    assert(c2[i].data == c1[i].data);
    assert(c2[i].data.symbol@ == sym);
    lemma_cache_entry_is(c1, sym, i);
    lemma_cache_entry_is(c2, sym, i);
}

/// Every book the sweep keeps is one of the cached books.
proof fn lemma_fresh_books_from(c: Seq<OrderBook>, now_ms: u64)
    requires
        books_unique(c),
    ensures
        books_unique(fresh_books(c, now_ms)),
        books_from(fresh_books(c, now_ms), c),
    decreases c.len(),
{
    reveal_with_fuel(Seq::filter, 2);
    if c.len() > 0 {
        let dl = c.drop_last();
        assert forall|i: int, j: int| 0 <= i < j < dl.len() implies #[trigger] dl[i].symbol@
            != #[trigger] dl[j].symbol@ by {
            assert(dl[i] == c[i] && dl[j] == c[j]);
        }
        lemma_fresh_books_from(dl, now_ms);
        let sub = fresh_books(dl, now_ms);
        let out = fresh_books(c, now_ms);
        assert forall|i: int| 0 <= i < out.len() implies book_of(c, #[trigger] out[i]) by {
            if i < sub.len() {
                assert(out[i] == sub[i]);
                assert(book_of(dl, sub[i]));
                let j = choose|j: int| 0 <= j < dl.len() && #[trigger] dl[j] == sub[i];
                assert(c[j] == out[i]);
            } else {
                assert(c[c.len() - 1] == out[i]);
            }
        }
        assert forall|a: int, b: int| 0 <= a < b < out.len() implies #[trigger] out[a].symbol@
            != #[trigger] out[b].symbol@ by {
            if b < sub.len() {
                assert(out[a] == sub[a] && out[b] == sub[b]);
            } else {
                assert(out[a] == sub[a]);
                assert(book_of(dl, sub[a]));
                let j = choose|j: int| 0 <= j < dl.len() && #[trigger] dl[j] == sub[a];
                assert(out[b] == c[c.len() - 1]);
                assert(c[j].symbol@ != c[c.len() - 1].symbol@);
            }
        }
    }
}

/// Every stamp the sweep keeps is one of the recorded stamps.
proof fn lemma_fresh_stamps_from(c: Seq<SequenceStamp>, now_ms: u64, max_age_ms: u64)
    requires
        stamps_unique(c),
    ensures
        stamps_unique(fresh_stamps_kept(c, now_ms, max_age_ms)),
        stamps_from(fresh_stamps_kept(c, now_ms, max_age_ms), c),
    decreases c.len(),
{
    reveal_with_fuel(Seq::filter, 2);
    if c.len() > 0 {
        let dl = c.drop_last();
        assert forall|i: int, j: int| 0 <= i < j < dl.len() implies #[trigger] dl[i].symbol@
            != #[trigger] dl[j].symbol@ by {
            assert(dl[i] == c[i] && dl[j] == c[j]);
        }
        lemma_fresh_stamps_from(dl, now_ms, max_age_ms);
        let sub = fresh_stamps_kept(dl, now_ms, max_age_ms);
        let out = fresh_stamps_kept(c, now_ms, max_age_ms);
        assert forall|i: int| 0 <= i < out.len() implies stamp_row_of(c, #[trigger] out[i]) by {
            if i < sub.len() {
                assert(out[i] == sub[i]);
                assert(stamp_row_of(dl, sub[i]));
                let j = choose|j: int| 0 <= j < dl.len() && #[trigger] dl[j] == sub[i];
                assert(c[j] == out[i]);
            } else {
                assert(c[c.len() - 1] == out[i]);
            }
        }
        assert forall|a: int, b: int| 0 <= a < b < out.len() implies #[trigger] out[a].symbol@
            != #[trigger] out[b].symbol@ by {
            if b < sub.len() {
                assert(out[a] == sub[a] && out[b] == sub[b]);
            } else {
                assert(out[a] == sub[a]);
                assert(stamp_row_of(dl, sub[a]));
                let j = choose|j: int| 0 <= j < dl.len() && #[trigger] dl[j] == sub[a];
                assert(out[b] == c[c.len() - 1]);
                assert(c[j].symbol@ != c[c.len() - 1].symbol@);
            }
        }
    }
}

/// Every row the TTL sweep keeps is one of the rows it was given, and they
/// stay unique and valid.
proof fn lemma_fresh_rows_from(c: Seq<CachedMarketData>, now_ms: u64, ttl_ms: u64)
    requires
        cache_unique(c),
        forall|i: int| 0 <= i < c.len() ==> market_data_valid(#[trigger] c[i].data),
    ensures
        cache_unique(fresh_rows(c, now_ms, ttl_ms)),
        rows_from(fresh_rows(c, now_ms, ttl_ms), c),
        forall|i: int|
            0 <= i < fresh_rows(c, now_ms, ttl_ms).len() ==> market_data_valid(
                (#[trigger] fresh_rows(c, now_ms, ttl_ms)[i]).data,
            ) && row_kept(fresh_rows(c, now_ms, ttl_ms)[i], now_ms, ttl_ms),
    decreases c.len(),
{
    reveal_with_fuel(Seq::filter, 2);
    if c.len() > 0 {
        let dl = c.drop_last();
        assert forall|i: int, j: int| 0 <= i < j < dl.len() implies #[trigger] dl[i].data.symbol@
            != #[trigger] dl[j].data.symbol@ by {
            assert(dl[i] == c[i] && dl[j] == c[j]);
        }
        assert forall|i: int| 0 <= i < dl.len() implies market_data_valid(
            #[trigger] dl[i].data,
        ) by {
            assert(dl[i] == c[i]);
        }
        lemma_fresh_rows_from(dl, now_ms, ttl_ms);
        let sub = fresh_rows(dl, now_ms, ttl_ms);
        let out = fresh_rows(c, now_ms, ttl_ms);
        assert forall|i: int| 0 <= i < out.len() implies row_of(c, #[trigger] out[i]) by {
            if i < sub.len() {
                assert(out[i] == sub[i]);
                assert(row_of(dl, sub[i]));
                let j = choose|j: int| 0 <= j < dl.len() && #[trigger] dl[j] == sub[i];
                assert(c[j] == out[i]);
            } else {
                assert(c[c.len() - 1] == out[i]);
            }
        }
        assert forall|a: int, b: int| 0 <= a < b < out.len() implies #[trigger] out[
            a].data.symbol@ != #[trigger] out[b].data.symbol@ by {
            if b < sub.len() {
                assert(out[a] == sub[a] && out[b] == sub[b]);
            } else {
                assert(out[a] == sub[a]);
                assert(row_of(dl, sub[a]));
                let j = choose|j: int| 0 <= j < dl.len() && #[trigger] dl[j] == sub[a];
                assert(out[b] == c[c.len() - 1]);
                assert(c[j].data.symbol@ != c[c.len() - 1].data.symbol@);
            }
        }
    }
}

/// One least-recently-used eviction step keeps the sweep's promises.
proof fn lemma_lru_step(
    before: Seq<CachedMarketData>,
    fresh: Seq<CachedMarketData>,
    after: Seq<CachedMarketData>,
    m: int,
)
    requires
        0 <= m < before.len(),
        after == before.remove(m),
        cache_unique(before),
        cache_unique(fresh),
        forall|x: int|
            0 <= x < before.len() ==> before[m].last_accessed_ms <= (#[trigger] before[
                x]).last_accessed_ms,
        rows_from(before, fresh),
        forall|j: int|
            0 <= j < fresh.len() && !cache_has(before, #[trigger] fresh[j].data.symbol@)
                ==> forall|k: int|
                0 <= k < before.len() ==> (#[trigger] before[k]).last_accessed_ms >= fresh[
                    j].last_accessed_ms,
    ensures
        cache_unique(after),
        rows_from(after, fresh),
        forall|j: int|
            0 <= j < fresh.len() && !cache_has(after, #[trigger] fresh[j].data.symbol@)
                ==> forall|k: int|
                0 <= k < after.len() ==> (#[trigger] after[k]).last_accessed_ms >= fresh[
                    j].last_accessed_ms,
{
    assert forall|a: int, b: int| 0 <= a < b < after.len() implies #[trigger] after[
        a].data.symbol@ != #[trigger] after[b].data.symbol@ by {
        let a2 = if a < m {
            a
        } else {
            a + 1
        };
        let b2 = if b < m {
            b
        } else {
            b + 1
        };
        assert(after[a] == before[a2] && after[b] == before[b2]);
    }
    assert forall|k: int| 0 <= k < after.len() implies row_of(fresh, #[trigger] after[k]) by {
        let k2 = if k < m {
            k
        } else {
            k + 1
        };
        assert(after[k] == before[k2]);
        assert(row_of(fresh, before[k2]));
    }
    assert forall|j: int|
        0 <= j < fresh.len() && !cache_has(after, #[trigger] fresh[j].data.symbol@) implies forall|
            k: int,
        | 0 <= k < after.len() ==> (#[trigger] after[k]).last_accessed_ms >= fresh[
        j].last_accessed_ms by {
        if cache_has(before, fresh[j].data.symbol@) {
            // the symbol was present and is gone: its row was the victim
            let w = choose|w: int|
                0 <= w < before.len() && #[trigger] before[w].data.symbol@ == fresh[j].data.symbol@;
            if w != m {
                let w2 = if w < m {
                    w
                } else {
                    w - 1
                };
                assert(after[w2] == before[w]);
                assert(cache_has(after, fresh[j].data.symbol@));
            }
            // so the row removed was the symbol's, and it is this fresh
            // row: its access time is the minimum of `before`
            assert(before[m].data.symbol@ == fresh[j].data.symbol@);
            assert(row_of(fresh, before[m]));
            let jj = choose|jj: int| 0 <= jj < fresh.len() && #[trigger] fresh[jj] == before[m];
            if jj < j {
                assert(fresh[jj].data.symbol@ != fresh[j].data.symbol@);
            } else if jj > j {
                assert(fresh[j].data.symbol@ != fresh[jj].data.symbol@);
            }
            assert(fresh[j] == before[m]);
            assert forall|k: int| 0 <= k < after.len() implies (#[trigger] after[
                k]).last_accessed_ms >= fresh[j].last_accessed_ms by {
                let k2 = if k < m {
                    k
                } else {
                    k + 1
                };
                assert(after[k] == before[k2]);
                assert(before[k2].last_accessed_ms >= before[m].last_accessed_ms);
            }
        } else {
            assert forall|k: int| 0 <= k < after.len() implies (#[trigger] after[
                k]).last_accessed_ms >= fresh[j].last_accessed_ms by {
                let k2 = if k < m {
                    k
                } else {
                    k + 1
                };
                assert(after[k] == before[k2]);
            }
        }
    }
}

/// The combined bid levels an incremental update works on: the cached
/// book's levels, if any, followed by the update's.
pub open spec fn merged_side_bids(books: Seq<OrderBook>, update: OrderBookUpdate) -> Seq<
    OrderBookEntry,
> {
    match book_entry(books, update.symbol@) {
        Some(b) => b.bids@ + update.bids@,
        None => Seq::empty() + update.bids@,
    }
}

/// The combined ask levels an incremental update works on.
pub open spec fn merged_side_asks(books: Seq<OrderBook>, update: OrderBookUpdate) -> Seq<
    OrderBookEntry,
> {
    match book_entry(books, update.symbol@) {
        Some(b) => b.asks@ + update.asks@,
        None => Seq::empty() + update.asks@,
    }
}

/// Some bid price at or above some ask price: the sides cross.
pub open spec fn sides_cross(bids: Seq<OrderBookEntry>, asks: Seq<OrderBookEntry>) -> bool {
    exists|i: int, j: int|
        0 <= i < bids.len() && 0 <= j < asks.len() && #[trigger] bids[i].price
            >= #[trigger] asks[j].price
}

/// On sorted sides with the same levels as the raw ones, the heads
/// cross exactly when some raw pair crosses.
proof fn lemma_cross_by_heads(
    sb: Seq<OrderBookEntry>,
    sa: Seq<OrderBookEntry>,
    ab: Seq<OrderBookEntry>,
    aa: Seq<OrderBookEntry>,
)
    requires
        entries_sorted_desc(sb),
        entries_sorted_asc(sa),
        sb.to_multiset() == ab.to_multiset(),
        sa.to_multiset() == aa.to_multiset(),
        sb.len() > 0,
        sa.len() > 0,
        ab.len() > 0,
        aa.len() > 0,
    ensures
        (sb[0].price >= sa[0].price) == sides_cross(ab, aa),
{
    broadcast use vstd::seq_lib::group_to_multiset_ensures;

    if sb[0].price >= sa[0].price {
        assert(sb.contains(sb[0]));
        assert(sb.to_multiset().count(sb[0]) > 0);
        assert(ab.to_multiset().count(sb[0]) > 0);
        assert(ab.contains(sb[0]));
        assert(sa.contains(sa[0]));
        assert(sa.to_multiset().count(sa[0]) > 0);
        assert(aa.to_multiset().count(sa[0]) > 0);
        assert(aa.contains(sa[0]));
        let i = choose|i: int| 0 <= i < ab.len() && ab[i] == sb[0];
        let j = choose|j: int| 0 <= j < aa.len() && aa[j] == sa[0];
        assert(ab[i].price >= aa[j].price);
    }
    if sides_cross(ab, aa) {
        let (i, j) = choose|i: int, j: int|
            0 <= i < ab.len() && 0 <= j < aa.len() && #[trigger] ab[i].price >= #[trigger] aa[
                j].price;
        assert(ab.contains(ab[i]));
        assert(ab.to_multiset().count(ab[i]) > 0);
        assert(sb.to_multiset().count(ab[i]) > 0);
        assert(sb.contains(ab[i]));
        assert(aa.contains(aa[j]));
        assert(aa.to_multiset().count(aa[j]) > 0);
        assert(sa.to_multiset().count(aa[j]) > 0);
        assert(sa.contains(aa[j]));
        let k = choose|k: int| 0 <= k < sb.len() && sb[k] == ab[i];
        let m = choose|m: int| 0 <= m < sa.len() && sa[m] == aa[j];
        assert(sb[0].price >= sb[k].price);
        assert(sa[m].price >= sa[0].price);
    }
}

impl DataService {
    /// Apply an accepted quote: its snapshot is validated and cached as
    /// socket-sourced.
    pub fn process_quote_update(&mut self, quote: &QuoteUpdate, now_ms: u64) -> (r: Result<
        (),
        ValidationError,
    >)
        requires
            old(self).wf(),
        ensures
            final(self).wf(),
            r is Ok <==> market_data_valid(market_data_of_quote(*quote)),
            r is Err ==> *final(self) == *old(self),
            r is Ok ==> quote_cached_effect(old(self).cache@, final(self).cache@, *quote, now_ms),
            r is Ok ==> cache_entry(final(self).cache@, quote.symbol@) == Some(
                final(self).cache@.last(),
            ),
            *final(self) == (DataService { cache: final(self).cache, ..*old(self) }),
    {
        let data = MarketData {
            symbol: quote.symbol.clone(),
            current_price: quote.last_price,
            change: quote.change,
            change_percent_bp: quote.change_percent_bp,
            volume: quote.volume,
            market_cap: None,
            high_52w: None,
            low_52w: None,
            timestamp_ms: quote.timestamp_ms,
            market_status: MarketStatus::Open,
            previous_close: quote.open,
            day_high: quote.high,
            day_low: quote.low,
            average_volume: None,
            bid: Some(quote.bid),
            ask: Some(quote.ask),
            bid_size: Some(quote.bid_size),
            ask_size: Some(quote.ask_size),
        };
        proof {
            assert(data == market_data_of_quote(*quote));
        }
        self.cache_market_data(data, DataSource::WebSocket, now_ms)
    }

    /// Apply a trade to the cached snapshot of its symbol, if any: the
    /// execution price becomes the current price, the size adds to the
    /// day volume (saturating), and the entry is refreshed.
    pub fn process_trade_update(&mut self, trade: &TradeUpdate, now_ms: u64) -> (applied: bool)
        requires
            old(self).wf(),
        ensures
            final(self).wf(),
            applied == cache_has(old(self).cache@, trade.symbol@),
            !applied ==> *final(self) == *old(self),
            applied ==> exists|i: int|
                {
                    &&& 0 <= i < old(self).cache@.len()
                    &&& old(self).cache@[i].data.symbol@ == trade.symbol@
                    &&& final(self).cache@ == old(self).cache@.update(
                        i,
                        #[trigger] final(self).cache@[i],
                    )
                    &&& final(self).cache@[i].data.current_price == trade.price
                    &&& final(self).cache@[i].data.volume as int == if old(self).cache@[
                        i].data.volume + trade.size <= u64::MAX {
                        old(self).cache@[i].data.volume + trade.size
                    } else {
                        u64::MAX as int
                    }
                    &&& final(self).cache@[i].data.timestamp_ms == trade.timestamp_ms
                    &&& final(self).cache@[i].cached_at_ms == now_ms
                    &&& final(self).cache@[i].source == DataSource::WebSocket
                    &&& final(self).cache@[i].data.symbol@ == trade.symbol@
                    &&& final(self).cache@[i].data.bid == old(self).cache@[i].data.bid
                    &&& final(self).cache@[i].data.ask == old(self).cache@[i].data.ask
                    &&& final(self).cache@[i].data.day_high == old(self).cache@[i].data.day_high
                    &&& final(self).cache@[i].data.day_low == old(self).cache@[i].data.day_low
                },
            *final(self) == (DataService { cache: final(self).cache, ..*old(self) }),
    {
        let idx = match self.find_cache_index(trade.symbol.as_str()) {
            Some(i) => i,
            None => {
                return false;
            },
        };
        let mut row = self.cache.remove(idx);
        row.data.current_price = trade.price;
        row.data.volume = if row.data.volume <= u64::MAX - trade.size {
            row.data.volume + trade.size
        } else {
            u64::MAX
        };
        row.data.timestamp_ms = trade.timestamp_ms;
        row.cached_at_ms = now_ms;
        row.source = DataSource::WebSocket;
        self.cache.insert(idx, row);
        proof {
            assert(self.cache@ =~= old(self).cache@.update(idx as int, self.cache@[idx as int]));
        }
        true
    }

    /// The index of the cached book for a symbol.
    fn find_book_index(&self, symbol: &str) -> (r: Option<usize>)
        ensures
            r matches Some(i) ==> i < self.order_book_cache@.len() && self.order_book_cache@[
                i as int].symbol@ == symbol@,
            r is None ==> !books_has(self.order_book_cache@, symbol@),
    {
        let mut i: usize = 0;
        while i < self.order_book_cache.len()
            invariant
                i <= self.order_book_cache@.len(),
                forall|k: int|
                    0 <= k < i ==> #[trigger] self.order_book_cache@[k].symbol@ != symbol@,
            decreases self.order_book_cache@.len() - i,
        {
            if str_eq(self.order_book_cache[i].symbol.as_str(), symbol) {
                return Some(i);
            }
            i = i + 1;
        }
        None
    }

    /// Apply a book update. A snapshot replaces the cached book
    /// outright after its sides are checked for order; an incremental
    /// update appends to the cached sides, re-sorts each, and keeps the
    /// best twenty levels. A result whose best bid reaches the best ask
    /// is discarded, never cached. Spread and mid price are recomputed
    /// after every merge.
    pub fn process_order_book_update(&mut self, update: &OrderBookUpdate, now_ms: u64) -> (r:
        Result<(), BookError>)
        requires
            old(self).wf(),
        ensures
            final(self).wf(),
            r is Err ==> *final(self) == *old(self),
            update.symbol@.len() == 0 ==> r == Err::<(), BookError>(BookError::EmptySymbol),
            update.is_snapshot && update.symbol@.len() > 0 && !(entries_sorted_desc(update.bids@)
                && entries_sorted_asc(update.asks@)) ==> r == Err::<(), BookError>(
                BookError::UnsortedSides,
            ),
            update.is_snapshot && update.symbol@.len() > 0 ==> (r is Ok <==> entries_sorted_desc(
                update.bids@,
            ) && entries_sorted_asc(update.asks@) && !(update.bids@.len() > 0
                && update.asks@.len() > 0 && update.bids@[0].price >= update.asks@[0].price)),
            !update.is_snapshot && update.symbol@.len() > 0 ==> (r is Ok <==> !sides_cross(
                merged_side_bids(old(self).order_book_cache@, *update),
                merged_side_asks(old(self).order_book_cache@, *update),
            )),
            r is Ok ==> {
                &&& books_has(final(self).order_book_cache@, update.symbol@)
                &&& book_entry(final(self).order_book_cache@, update.symbol@) matches Some(b) && {
                    &&& book_sides_ok(b)
                    &&& book_derived_ok(b)
                    &&& b.sequence_number == update.sequence
                    &&& b.timestamp_ms == update.timestamp_ms
                    &&& (update.is_snapshot ==> b.bids@ == update.bids@ && b.asks@
                        == update.asks@)
                    &&& (!update.is_snapshot ==> b.bids@.len() <= 20 && b.asks@.len() <= 20)
                }
            },
            *final(self) == (DataService {
                order_book_cache: final(self).order_book_cache,
                ..*old(self)
            }),
    {
        if update.symbol.as_str().is_empty() {
            return Err(BookError::EmptySymbol);
        }
        let mut bids: Vec<OrderBookEntry>;
        let mut asks: Vec<OrderBookEntry>;
        if update.is_snapshot {
            if !crate::messages::bids_sorted_desc(&update.bids) || !crate::messages::asks_sorted_asc(
                &update.asks,
            ) {
                return Err(BookError::UnsortedSides);
            }
            bids = copy_entries(&update.bids);
            asks = copy_entries(&update.asks);
        } else {
            match self.find_book_index(update.symbol.as_str()) {
                Some(i) => {
                    proof {
                        lemma_book_entry_is(
                            self.order_book_cache@,
                            update.symbol@,
                            i as int,
                        );
                    }
                    bids = copy_entries(&self.order_book_cache[i].bids);
                    asks = copy_entries(&self.order_book_cache[i].asks);
                },
                None => {
                    bids = Vec::new();
                    asks = Vec::new();
                },
            }
            let ghost all_bids = merged_side_bids(self.order_book_cache@, *update);
            let ghost all_asks = merged_side_asks(self.order_book_cache@, *update);
            let mut more_bids = copy_entries(&update.bids);
            let mut more_asks = copy_entries(&update.asks);
            bids.append(&mut more_bids);
            asks.append(&mut more_asks);
            proof {
                assert(bids@ == all_bids && asks@ == all_asks);
            }
            sort_entries_desc(&mut bids);
            sort_entries_asc(&mut asks);
            let ghost sorted_bids = bids@;
            let ghost sorted_asks = asks@;
            bids.truncate(20);
            asks.truncate(20);
            proof {
                broadcast use vstd::seq_lib::group_to_multiset_ensures;

                assert(sorted_bids.len() == all_bids.len());
                assert(sorted_asks.len() == all_asks.len());
                if sorted_bids.len() > 20 {
                    assert(bids@ == sorted_bids.subrange(0, 20));
                }
                if sorted_asks.len() > 20 {
                    assert(asks@ == sorted_asks.subrange(0, 20));
                }
                if sorted_bids.len() > 0 && sorted_asks.len() > 0 {
                    lemma_cross_by_heads(sorted_bids, sorted_asks, all_bids, all_asks);
                    assert(bids@[0] == sorted_bids[0] && asks@[0] == sorted_asks[0]);
                } else {
                    if sides_cross(all_bids, all_asks) {
                        let (x, y) = choose|x: int, y: int|
                            0 <= x < all_bids.len() && 0 <= y < all_asks.len()
                                && #[trigger] all_bids[x].price >= #[trigger] all_asks[y].price;
                        assert(all_bids.len() > 0 && all_asks.len() > 0);
                    }
                }
            }
        }
        if bids.len() > 0 && asks.len() > 0 && bids[0].price >= asks[0].price {
            return Err(BookError::CrossedBook);
        }
        let mut book = OrderBook {
            symbol: update.symbol.clone(),
            bids,
            asks,
            timestamp_ms: update.timestamp_ms,
            spread: 0,
            spread_percent_bp: 0,
            mid_price: 0,
            sequence_number: update.sequence,
        };
        book.calculate_spread();
        self.put_book(book);
        Ok(())
    }

    /// Insert or replace the cached book of a symbol.
    fn put_book(&mut self, book: OrderBook)
        requires
            old(self).wf(),
            book_sides_ok(book),
            book_derived_ok(book),
        ensures
            final(self).wf(),
            book_entry(final(self).order_book_cache@, book.symbol@) == Some(book),
            books_has(old(self).order_book_cache@, book.symbol@) ==> exists|i: int|
                0 <= i < old(self).order_book_cache@.len() && old(self).order_book_cache@[
                    i].symbol@ == book.symbol@ && final(self).order_book_cache@ == old(
                    self,
                ).order_book_cache@.update(i, book),
            !books_has(old(self).order_book_cache@, book.symbol@) ==> final(self).order_book_cache@ == old(self).order_book_cache@.push(book),
            *final(self) == (DataService {
                order_book_cache: final(self).order_book_cache,
                ..*old(self)
            }),
    {
        let ghost sym = book.symbol@;
        match self.find_book_index(book.symbol.as_str()) {
            Some(i) => {
                self.order_book_cache.remove(i);
                self.order_book_cache.insert(i, book);
                proof {
                    assert(self.order_book_cache@ =~= old(self).order_book_cache@.update(
                        i as int,
                        self.order_book_cache@[i as int],
                    ));
                    lemma_book_entry_is(self.order_book_cache@, sym, i as int);
                }
            },
            None => {
                self.order_book_cache.push(book);
                proof {
                    lemma_book_entry_is(
                        self.order_book_cache@,
                        sym,
                        self.order_book_cache@.len() - 1,
                    );
                }
            },
        }
    }

    /// Record the newest applied sequence number of a symbol.
    fn put_stamp(&mut self, sym: &String, sequence: u64, now_ms: u64)
        requires
            old(self).wf(),
        ensures
            final(self).wf(),
            stamp_of(final(self).websocket_message_cache@, sym@) == Some(sequence),
            stamps_has(old(self).websocket_message_cache@, sym@) ==> exists|i: int|
                0 <= i < old(self).websocket_message_cache@.len() && old(
                    self,
                ).websocket_message_cache@[i].symbol@ == sym@ && final(self).websocket_message_cache@ == old(self).websocket_message_cache@.update(
                    i,
                    #[trigger] final(self).websocket_message_cache@[i],
                ),
            !stamps_has(old(self).websocket_message_cache@, sym@) ==> final(self).websocket_message_cache@.drop_last() == old(self).websocket_message_cache@,
            *final(self) == (DataService {
                websocket_message_cache: final(self).websocket_message_cache,
                ..*old(self)
            }),
    {
        let stamp = SequenceStamp { symbol: sym.clone(), sequence, stored_at_ms: now_ms };
        let mut i: usize = 0;
        while i < self.websocket_message_cache.len()
            invariant
                *self == *old(self),
                old(self).wf(),
                stamp.symbol@ == sym@ && stamp.sequence == sequence,
                i <= self.websocket_message_cache@.len(),
                forall|k: int|
                    0 <= k < i ==> #[trigger] self.websocket_message_cache@[k].symbol@ != sym@,
            decreases self.websocket_message_cache@.len() - i,
        {
            if str_eq(self.websocket_message_cache[i].symbol.as_str(), sym.as_str()) {
                self.websocket_message_cache.remove(i);
                self.websocket_message_cache.insert(i, stamp);
                proof {
                    assert(self.websocket_message_cache@ =~= old(
                        self,
                    ).websocket_message_cache@.update(
                        i as int,
                        self.websocket_message_cache@[i as int],
                    ));
                    lemma_stamp_is(self.websocket_message_cache@, sym@, i as int);
                }
                return ;
            }
            i = i + 1;
        }
        self.websocket_message_cache.push(stamp);
        proof {
            assert(self.websocket_message_cache@.drop_last() =~= old(
                self,
            ).websocket_message_cache@);
            lemma_stamp_is(
                self.websocket_message_cache@,
                sym@,
                self.websocket_message_cache@.len() - 1,
            );
        }
    }

    /// The last applied sequence number of a symbol, if any.
    fn get_stamp(&self, sym: &str) -> (r: Option<u64>)
        requires
            self.wf(),
        ensures
            r == stamp_of(self.websocket_message_cache@, sym@),
    {
        let mut i: usize = 0;
        while i < self.websocket_message_cache.len()
            invariant
                self.wf(),
                i <= self.websocket_message_cache@.len(),
                forall|k: int|
                    0 <= k < i ==> #[trigger] self.websocket_message_cache@[k].symbol@ != sym@,
            decreases self.websocket_message_cache@.len() - i,
        {
            if str_eq(self.websocket_message_cache[i].symbol.as_str(), sym) {
                proof {
                    lemma_stamp_is(self.websocket_message_cache@, sym@, i as int);
                }
                return Some(self.websocket_message_cache[i].sequence);
            }
            i = i + 1;
        }
        proof {
            assert(!stamps_has(self.websocket_message_cache@, sym@));
        }
        None
    }

    /// Whether the message repeats or precedes an already-applied
    /// sequence number for its symbol.
    pub open spec fn message_is_stale(self, m: WebSocketMessage) -> bool {
        m.symbol matches Some(sym) && m.sequence matches Some(seq) && (stamp_of(
            self.websocket_message_cache@,
            sym@,
        ) matches Some(last) && seq <= last)
    }

    /// Apply one accepted stream message to the caches. A message whose
    /// sequence number does not advance past the applied one is
    /// dropped; otherwise quotes refresh the snapshot cache, trades
    /// adjust the cached snapshot, and book updates replace or merge
    /// the cached book. Kinds this coordinator does not consume, and
    /// payloads that do not fit their kind, change nothing.
    pub fn handle_websocket_message(&mut self, message: &WebSocketMessage, now_ms: u64) -> (r:
        DataUpdateOutcome)
        requires
            old(self).wf(),
        ensures
            final(self).wf(),
            r == DataUpdateOutcome::SkippedStale <==> old(self).message_is_stale(*message),
            r == DataUpdateOutcome::SkippedStale ==> *final(self) == *old(self),
            !old(self).message_is_stale(*message) ==> {
                &&& message.message_type is Quote ==> (message.payload matches
                MessagePayload::Quote(q) ==> {
                    &&& r == DataUpdateOutcome::QuoteCached <==> market_data_valid(
                        market_data_of_quote(q),
                    )
                    &&& r == DataUpdateOutcome::QuoteCached ==> quote_cached_effect(
                        old(self).cache@,
                        final(self).cache@,
                        q,
                        now_ms,
                    )
                    &&& r is QuoteRejected <==> !market_data_valid(market_data_of_quote(q))
                    &&& r is QuoteRejected ==> final(self).cache@ == old(self).cache@
                })
                &&& message.message_type is Trade ==> (message.payload matches
                MessagePayload::Trade(t) ==> {
                    &&& r == DataUpdateOutcome::TradeApplied <==> cache_has(
                        old(self).cache@,
                        t.symbol@,
                    )
                    &&& r == DataUpdateOutcome::TradeIgnored <==> !cache_has(
                        old(self).cache@,
                        t.symbol@,
                    )
                })
                &&& message.message_type is OrderBook ==> (message.payload matches
                MessagePayload::OrderBook(b) ==> {
                    &&& r == DataUpdateOutcome::BookUpdated ==> (book_entry(
                        final(self).order_book_cache@,
                        b.symbol@,
                    ) matches Some(cached) && book_sides_ok(cached) && book_derived_ok(cached)
                        && cached.sequence_number == b.sequence)
                    &&& r is BookRejected ==> final(self).order_book_cache@ == old(
                        self,
                    ).order_book_cache@
                    &&& r is BookUpdated || r is BookRejected
                })
                &&& !(message.message_type is Quote || message.message_type is Trade
                    || message.message_type is OrderBook) ==> r
                    == DataUpdateOutcome::Ignored && *final(self) == (DataService {
                    websocket_message_cache: final(self).websocket_message_cache,
                    ..*old(self)
                })
                &&& message.symbol matches Some(sym) ==> (message.sequence matches Some(sq)
                    ==> stamp_of(final(self).websocket_message_cache@, sym@) == Some(sq))
            },
    {
        if let (Some(sym), Some(seq)) = (&message.symbol, message.sequence) {
            if let Some(last) = self.get_stamp(sym.as_str()) {
                if seq <= last {
                    return DataUpdateOutcome::SkippedStale;
                }
            }
            let key = sym.clone();
            self.put_stamp(&key, seq, now_ms);
        }
        match message.message_type {
            MessageType::Quote => {
                match &message.payload {
                    MessagePayload::Quote(q) => {
                        match self.process_quote_update(q, now_ms) {
                            Ok(()) => DataUpdateOutcome::QuoteCached,
                            Err(e) => DataUpdateOutcome::QuoteRejected(e),
                        }
                    },
                    _ => DataUpdateOutcome::Ignored,
                }
            },
            MessageType::Trade => {
                match &message.payload {
                    MessagePayload::Trade(t) => {
                        if self.process_trade_update(t, now_ms) {
                            DataUpdateOutcome::TradeApplied
                        } else {
                            DataUpdateOutcome::TradeIgnored
                        }
                    },
                    _ => DataUpdateOutcome::Ignored,
                }
            },
            MessageType::OrderBook => {
                match &message.payload {
                    MessagePayload::OrderBook(b) => {
                        match self.process_order_book_update(b, now_ms) {
                            Ok(()) => DataUpdateOutcome::BookUpdated,
                            Err(e) => DataUpdateOutcome::BookRejected(e),
                        }
                    },
                    _ => DataUpdateOutcome::Ignored,
                }
            },
            _ => DataUpdateOutcome::Ignored,
        }
    }

    /// The index of the series for a (symbol, timeframe).
    fn find_series_index(&self, symbol: &str, timeframe: TimeFrame) -> (r: Option<usize>)
        ensures
            r matches Some(i) ==> i < self.historical_cache@.len() && self.historical_cache@[
                i as int].symbol@ == symbol@ && self.historical_cache@[i as int].timeframe
                == timeframe,
            r is None ==> !series_has(self.historical_cache@, symbol@, timeframe),
    {
        let mut i: usize = 0;
        while i < self.historical_cache.len()
            invariant
                i <= self.historical_cache@.len(),
                forall|k: int|
                    0 <= k < i ==> !(#[trigger] self.historical_cache@[k].symbol@ == symbol@
                        && self.historical_cache@[k].timeframe == timeframe),
            decreases self.historical_cache@.len() - i,
        {
            if str_eq(self.historical_cache[i].symbol.as_str(), symbol)
                && self.historical_cache[i].timeframe == timeframe {
                return Some(i);
            }
            i = i + 1;
        }
        None
    }

    /// Serve a prefix of the cached series when it already holds at
    /// least `periods` candles; otherwise a fetch is needed.
    pub fn get_historical_data(&self, symbol: &str, timeframe: TimeFrame, periods: usize) -> (r:
        HistoryLookup)
        requires
            self.wf(),
        ensures
            r is Cached <==> (series_of(self.historical_cache@, symbol@, timeframe) matches Some(
                s,
            ) && s.len() >= periods),
            r matches HistoryLookup::Cached(v) ==> (series_of(
                self.historical_cache@,
                symbol@,
                timeframe,
            ) matches Some(s) && v@ == s.subrange(0, periods as int)),
    {
        let idx = match self.find_series_index(symbol, timeframe) {
            Some(i) => i,
            None => {
                return HistoryLookup::NeedsFetch;
            },
        };
        proof {
            lemma_series_is(self.historical_cache@, symbol@, timeframe, idx as int);
        }
        let candles = &self.historical_cache[idx].candles;
        if candles.len() < periods {
            return HistoryLookup::NeedsFetch;
        }
        let mut out: Vec<Candle> = Vec::new();
        let mut i: usize = 0;
        while i < periods
            invariant
                self.wf(),
                idx < self.historical_cache@.len(),
                periods <= self.historical_cache@[idx as int].candles@.len(),
                i <= periods,
                out@ == self.historical_cache@[idx as int].candles@.subrange(0, i as int),
            decreases periods - i,
        {
            proof {
                let c = self.historical_cache@[idx as int].candles@;
                assert(c.subrange(0, i as int + 1) =~= c.subrange(0, i as int).push(c[i as int]));
            }
            out.push(self.historical_cache[idx].candles[i]);
            i = i + 1;
        }
        HistoryLookup::Cached(out)
    }

    /// Insert or replace the cached series of a (symbol, timeframe).
    pub fn cache_historical_data(&mut self, symbol: String, timeframe: TimeFrame, data: Vec<Candle>)
        requires
            old(self).wf(),
        ensures
            final(self).wf(),
            series_of(final(self).historical_cache@, symbol@, timeframe) == Some(data@),
            *final(self) == (DataService {
                historical_cache: final(self).historical_cache,
                ..*old(self)
            }),
    {
        let ghost sym = symbol@;
        let series = HistoricalSeries { symbol, timeframe, candles: data };
        match self.find_series_index(series.symbol.as_str(), timeframe) {
            Some(i) => {
                self.historical_cache.remove(i);
                self.historical_cache.insert(i, series);
                proof {
                    let c = self.historical_cache@;
                    let oldc = old(self).historical_cache@;
                    assert(c =~= oldc.update(i as int, c[i as int]));
                    assert(c[i as int].symbol@ == sym && c[i as int].timeframe == timeframe);
                    assert forall|a: int, b: int| 0 <= a < b < c.len() implies !(#[trigger] c[
                        a].symbol@ == #[trigger] c[b].symbol@ && c[a].timeframe
                        == c[b].timeframe) by {
                        if a != i as int && b != i as int {
                            assert(c[a] == oldc[a] && c[b] == oldc[b]);
                        } else if a == i as int {
                            assert(c[b] == oldc[b]);
                            assert(!(oldc[i as int].symbol@ == oldc[b].symbol@ && oldc[
                                i as int].timeframe == oldc[b].timeframe));
                        } else {
                            assert(c[a] == oldc[a]);
                            assert(!(oldc[a].symbol@ == oldc[i as int].symbol@
                                && oldc[a].timeframe == oldc[i as int].timeframe));
                        }
                    }
                    lemma_series_is(c, sym, timeframe, i as int);
                }
            },
            None => {
                self.historical_cache.push(series);
                proof {
                    let c = self.historical_cache@;
                    let oldc = old(self).historical_cache@;
                    assert forall|a: int, b: int| 0 <= a < b < c.len() implies !(#[trigger] c[
                        a].symbol@ == #[trigger] c[b].symbol@ && c[a].timeframe
                        == c[b].timeframe) by {
                        if b < c.len() - 1 {
                            assert(c[a] == oldc[a]);
                            assert(c[b] == oldc[b]);
                            assert(!(oldc[a].symbol@ == oldc[b].symbol@ && oldc[a].timeframe
                                == oldc[b].timeframe));
                            assert(!(c[a].symbol@ == c[b].symbol@ && c[a].timeframe
                                == c[b].timeframe));
                        } else {
                            assert(c[a] == oldc[a]);
                            assert(!series_has(oldc, sym, timeframe));
                            assert(!(oldc[a].symbol@ == sym && oldc[a].timeframe == timeframe));
                            assert(c[b].symbol@ == sym && c[b].timeframe == timeframe);
                            assert(!(c[a].symbol@ == c[b].symbol@ && c[a].timeframe
                                == c[b].timeframe));
                        }
                    }
                    lemma_series_is(c, sym, timeframe, c.len() - 1);
                }
            },
        }
    }

    /// The cached book of a symbol while it is fresh under the book TTL.
    pub fn get_order_book(&self, symbol: &str, now_ms: u64) -> (r: Option<&OrderBook>)
        requires
            self.wf(),
        ensures
            r is Some <==> (book_entry(self.order_book_cache@, symbol@) matches Some(b)
                && b.timestamp_ms <= now_ms && now_ms - b.timestamp_ms
                < self.order_book_cache_duration_ms),
            r matches Some(b) ==> book_entry(self.order_book_cache@, symbol@) == Some(*b)
                && book_sides_ok(*b) && book_derived_ok(*b),
    {
        match self.find_book_index(symbol) {
            Some(i) => {
                proof {
                    lemma_book_entry_is(self.order_book_cache@, symbol@, i as int);
                }
                let b = &self.order_book_cache[i];
                if b.timestamp_ms <= now_ms && now_ms - b.timestamp_ms
                    < self.order_book_cache_duration_ms {
                    Some(b)
                } else {
                    None
                }
            },
            None => None,
        }
    }
}

} // verus!
