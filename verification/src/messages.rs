//! Entity model for the streaming feed: typed wire messages, update
//! records with their validity rules, and subscriptions.
//!
//! Prices are integer hundredths of the quote currency; instants are
//! milliseconds.

use vstd::prelude::*;

use crate::strutil::{dec_digits, u64_to_dec};

verus! {

use vstd::seq_lib::group_to_multiset_ensures;
use vstd::seq_lib::lemma_multiset_commutative;

/// The kind of a message on the wire.
#[derive(Clone, Copy, Debug, PartialEq, Eq, Structural, Hash)]
pub enum MessageType {
    Quote,
    Trade,
    OrderBook,
    OrderUpdate,
    MarketStatus,
    Heartbeat,
    Error,
    Subscribe,
    Unsubscribe,
    Authentication,
    SystemStatus,
    /// A kind this library does not know; kept for forward compatibility.
    Unknown,
}

/// The side of a trade or of a book entry.
#[derive(Clone, Copy, Debug, PartialEq, Eq, Structural, Hash)]
pub enum OrderSide {
    Buy,
    Sell,
    SellShort,
}

/// Why a record was rejected.
#[derive(Clone, Copy, Debug, PartialEq, Eq, Structural)]
pub enum ValidationError {
    EmptySymbol,
    EmptyTradeId,
    NonPositivePrice,
    InvalidSpread,
    ZeroSize,
    NoMessageTypes,
    DayRangeInvalid,
}

/// A real-time price update.
#[derive(Clone, Debug)]
pub struct QuoteUpdate {
    pub symbol: String,
    /// Best bid, in hundredths; zero means absent.
    pub bid: u64,
    /// Best ask, in hundredths.
    pub ask: u64,
    pub bid_size: u64,
    pub ask_size: u64,
    /// Last traded price, in hundredths.
    pub last_price: u64,
    pub last_size: u64,
    pub volume: u64,
    pub timestamp_ms: u64,
    /// Change against the previous close, in hundredths; may be negative.
    pub change: i64,
    /// Change in basis points; may be negative.
    pub change_percent_bp: i64,
    pub high: u64,
    pub low: u64,
    pub open: u64,
}

impl QuoteUpdate {
    /// Create a quote with the fields a first update carries; the day
    /// range and open start at the last price.
    pub fn new(symbol: String, bid: u64, ask: u64, last_price: u64, now_ms: u64) -> (r: Result<
        QuoteUpdate,
        ValidationError,
    >)
        ensures
            symbol@.len() == 0 ==> r == Err::<QuoteUpdate, ValidationError>(
                ValidationError::EmptySymbol,
            ),
            symbol@.len() > 0 && (bid == 0 || ask == 0 || last_price == 0) ==> r == Err::<
                QuoteUpdate,
                ValidationError,
            >(ValidationError::NonPositivePrice),
            symbol@.len() > 0 && bid > 0 && ask > 0 && last_price > 0 && bid >= ask ==> r == Err::<
                QuoteUpdate,
                ValidationError,
            >(ValidationError::InvalidSpread),
            symbol@.len() > 0 && bid > 0 && ask > 0 && last_price > 0 && bid < ask ==> {
                &&& r is Ok
                &&& r->Ok_0.symbol@ == symbol@
                &&& r->Ok_0.bid == bid
                &&& r->Ok_0.ask == ask
                &&& r->Ok_0.last_price == last_price
                &&& r->Ok_0.timestamp_ms == now_ms
                &&& r->Ok_0.high == last_price
                &&& r->Ok_0.low == last_price
                &&& r->Ok_0.open == last_price
                &&& r->Ok_0.bid_size == 0
                &&& r->Ok_0.ask_size == 0
                &&& r->Ok_0.last_size == 0
                &&& r->Ok_0.volume == 0
                &&& r->Ok_0.change == 0
                &&& r->Ok_0.change_percent_bp == 0
            },
    {
        if symbol.as_str().is_empty() {
            return Err(ValidationError::EmptySymbol);
        }
        if bid == 0 || ask == 0 || last_price == 0 {
            return Err(ValidationError::NonPositivePrice);
        }
        if bid >= ask {
            return Err(ValidationError::InvalidSpread);
        }
        Ok(
            QuoteUpdate {
                symbol,
                bid,
                ask,
                bid_size: 0,
                ask_size: 0,
                last_price,
                last_size: 0,
                volume: 0,
                timestamp_ms: now_ms,
                change: 0,
                change_percent_bp: 0,
                high: last_price,
                low: last_price,
                open: last_price,
            },
        )
    }

    /// The bid/ask spread, in hundredths; zero when the quote is crossed.
    pub fn get_spread(&self) -> (r: u64)
        ensures
            r == if self.ask >= self.bid {
                self.ask - self.bid
            } else {
                0
            },
    {
        if self.ask >= self.bid {
            self.ask - self.bid
        } else {
            0
        }
    }

    /// The spread as a fraction of the bid, in basis points, saturating.
    pub fn get_spread_percent_bp(&self) -> (r: u64)
        ensures
            self.bid == 0 || self.ask < self.bid ==> r == 0,
            self.bid > 0 && self.ask >= self.bid ==> r as int == spec_min_int(
                (self.ask - self.bid) * 10000 / self.bid as int,
                u64::MAX as int,
            ),
    {
        if self.bid == 0 || self.ask < self.bid {
            return 0;
        }
        let wide: u128 = ((self.ask - self.bid) as u128) * 10000 / (self.bid as u128);
        if wide > u64::MAX as u128 {
            u64::MAX
        } else {
            wide as u64
        }
    }
}

/// The smaller of two mathematical integers.
pub open spec fn spec_min_int(a: int, b: int) -> int {
    if a <= b {
        a
    } else {
        b
    }
}

/// A trade execution record.
#[derive(Clone, Debug)]
pub struct TradeUpdate {
    pub symbol: String,
    /// Execution price, in hundredths.
    pub price: u64,
    pub size: u64,
    pub side: OrderSide,
    pub timestamp_ms: u64,
    pub trade_id: String,
    pub conditions: Vec<String>,
    pub venue: Option<String>,
}

impl TradeUpdate {
    pub fn new(
        symbol: String,
        price: u64,
        size: u64,
        side: OrderSide,
        trade_id: String,
        now_ms: u64,
    ) -> (r: Result<TradeUpdate, ValidationError>)
        ensures
            symbol@.len() == 0 ==> r == Err::<TradeUpdate, ValidationError>(
                ValidationError::EmptySymbol,
            ),
            symbol@.len() > 0 && trade_id@.len() == 0 ==> r == Err::<TradeUpdate, ValidationError>(
                ValidationError::EmptyTradeId,
            ),
            symbol@.len() > 0 && trade_id@.len() > 0 && price == 0 ==> r == Err::<
                TradeUpdate,
                ValidationError,
            >(ValidationError::NonPositivePrice),
            symbol@.len() > 0 && trade_id@.len() > 0 && price > 0 && size == 0 ==> r == Err::<
                TradeUpdate,
                ValidationError,
            >(ValidationError::ZeroSize),
            symbol@.len() > 0 && trade_id@.len() > 0 && price > 0 && size > 0 ==> {
                &&& r is Ok
                &&& r->Ok_0.symbol@ == symbol@
                &&& r->Ok_0.price == price
                &&& r->Ok_0.size == size
                &&& r->Ok_0.side == side
                &&& r->Ok_0.trade_id@ == trade_id@
                &&& r->Ok_0.timestamp_ms == now_ms
                &&& r->Ok_0.conditions@.len() == 0
                &&& r->Ok_0.venue is None
            },
    {
        if symbol.as_str().is_empty() {
            return Err(ValidationError::EmptySymbol);
        }
        if trade_id.as_str().is_empty() {
            return Err(ValidationError::EmptyTradeId);
        }
        if price == 0 {
            return Err(ValidationError::NonPositivePrice);
        }
        if size == 0 {
            return Err(ValidationError::ZeroSize);
        }
        Ok(
            TradeUpdate {
                symbol,
                price,
                size,
                side,
                timestamp_ms: now_ms,
                trade_id,
                conditions: Vec::new(),
                venue: None,
            },
        )
    }
}

/// One price level of an order book side.
#[derive(Clone, Copy, Debug, PartialEq, Eq, Structural)]
pub struct OrderBookEntry {
    /// Level price, in hundredths.
    pub price: u64,
    pub quantity: u64,
    pub side: OrderSide,
    pub order_count: u32,
}

impl OrderBookEntry {
    pub fn new(price: u64, quantity: u64, side: OrderSide) -> (r: Result<
        OrderBookEntry,
        ValidationError,
    >)
        ensures
            price == 0 ==> r == Err::<OrderBookEntry, ValidationError>(
                ValidationError::NonPositivePrice,
            ),
            price > 0 && quantity == 0 ==> r == Err::<OrderBookEntry, ValidationError>(
                ValidationError::ZeroSize,
            ),
            price > 0 && quantity > 0 ==> r == Ok::<OrderBookEntry, ValidationError>(
                OrderBookEntry { price, quantity, side, order_count: 1 },
            ),
    {
        if price == 0 {
            return Err(ValidationError::NonPositivePrice);
        }
        if quantity == 0 {
            return Err(ValidationError::ZeroSize);
        }
        Ok(OrderBookEntry { price, quantity, side, order_count: 1 })
    }
}

/// Bid levels ordered best first: prices non-increasing.
pub open spec fn entries_sorted_desc(s: Seq<OrderBookEntry>) -> bool {
    forall|i: int, j: int| 0 <= i < j < s.len() ==> #[trigger] s[i].price >= #[trigger] s[j].price
}

/// Ask levels ordered best first: prices non-decreasing.
pub open spec fn entries_sorted_asc(s: Seq<OrderBookEntry>) -> bool {
    forall|i: int, j: int| 0 <= i < j < s.len() ==> #[trigger] s[i].price <= #[trigger] s[j].price
}

/// An order-book update: a full snapshot or an incremental delta.
#[derive(Clone, Debug)]
pub struct OrderBookUpdate {
    pub symbol: String,
    pub bids: Vec<OrderBookEntry>,
    pub asks: Vec<OrderBookEntry>,
    pub timestamp_ms: u64,
    pub sequence: u64,
    pub is_snapshot: bool,
}

impl OrderBookUpdate {
    pub fn new(symbol: String, sequence: u64, is_snapshot: bool, now_ms: u64) -> (r: Result<
        OrderBookUpdate,
        ValidationError,
    >)
        ensures
            symbol@.len() == 0 ==> r == Err::<OrderBookUpdate, ValidationError>(
                ValidationError::EmptySymbol,
            ),
            symbol@.len() > 0 ==> {
                &&& r is Ok
                &&& r->Ok_0.symbol@ == symbol@
                &&& r->Ok_0.bids@.len() == 0
                &&& r->Ok_0.asks@.len() == 0
                &&& r->Ok_0.sequence == sequence
                &&& r->Ok_0.is_snapshot == is_snapshot
                &&& r->Ok_0.timestamp_ms == now_ms
            },
    {
        if symbol.as_str().is_empty() {
            return Err(ValidationError::EmptySymbol);
        }
        Ok(
            OrderBookUpdate {
                symbol,
                bids: Vec::new(),
                asks: Vec::new(),
                timestamp_ms: now_ms,
                sequence,
                is_snapshot,
            },
        )
    }

    /// Append a bid level after validating it.
    pub fn add_bid(&mut self, price: u64, quantity: u64) -> (r: Result<(), ValidationError>)
        ensures
            r is Ok <==> price > 0 && quantity > 0,
            r is Ok ==> final(self).bids@ == old(self).bids@.push(
                OrderBookEntry { price, quantity, side: OrderSide::Buy, order_count: 1 },
            ),
            r is Err ==> *final(self) == *old(self),
            final(self).asks@ == old(self).asks@,
            final(self).symbol@ == old(self).symbol@,
            final(self).sequence == old(self).sequence,
            final(self).is_snapshot == old(self).is_snapshot,
            final(self).timestamp_ms == old(self).timestamp_ms,
    {
        let entry = OrderBookEntry::new(price, quantity, OrderSide::Buy)?;
        self.bids.push(entry);
        Ok(())
    }

    /// Append an ask level after validating it.
    pub fn add_ask(&mut self, price: u64, quantity: u64) -> (r: Result<(), ValidationError>)
        ensures
            r is Ok <==> price > 0 && quantity > 0,
            r is Ok ==> final(self).asks@ == old(self).asks@.push(
                OrderBookEntry { price, quantity, side: OrderSide::Sell, order_count: 1 },
            ),
            r is Err ==> *final(self) == *old(self),
            final(self).bids@ == old(self).bids@,
            final(self).symbol@ == old(self).symbol@,
            final(self).sequence == old(self).sequence,
            final(self).is_snapshot == old(self).is_snapshot,
            final(self).timestamp_ms == old(self).timestamp_ms,
    {
        let entry = OrderBookEntry::new(price, quantity, OrderSide::Sell)?;
        self.asks.push(entry);
        Ok(())
    }

    /// Order both sides best-first: bids by descending price, asks by
    /// ascending price. Levels are kept, only rearranged.
    pub fn sort_entries(&mut self)
        ensures
            entries_sorted_desc(final(self).bids@),
            entries_sorted_asc(final(self).asks@),
            final(self).bids@.to_multiset() == old(self).bids@.to_multiset(),
            final(self).asks@.to_multiset() == old(self).asks@.to_multiset(),
            final(self).symbol@ == old(self).symbol@,
            final(self).sequence == old(self).sequence,
            final(self).is_snapshot == old(self).is_snapshot,
            final(self).timestamp_ms == old(self).timestamp_ms,
    {
        sort_entries_desc(&mut self.bids);
        sort_entries_asc(&mut self.asks);
    }
}

/// Sort book levels by descending price; the collection of levels is kept.
pub fn sort_entries_desc(v: &mut Vec<OrderBookEntry>)
    ensures
        entries_sorted_desc(final(v)@),
        final(v)@.to_multiset() == old(v)@.to_multiset(),
        final(v)@.len() == old(v)@.len(),
{
    proof {
        broadcast use group_to_multiset_ensures;

    }
    let mut out: Vec<OrderBookEntry> = Vec::new();
    while v.len() > 0
        invariant
            entries_sorted_desc(out@),
            out@.to_multiset().add(v@.to_multiset()) == old(v)@.to_multiset(),
            out@.len() + v@.len() == old(v)@.len(),
            forall|i: int, j: int|
                0 <= i < out@.len() && 0 <= j < v@.len() ==> #[trigger] out@[i].price
                    >= #[trigger] v@[j].price,
        decreases v.len(),
    {
        proof {
            broadcast use group_to_multiset_ensures;

        }
        let m = index_of_max_price(v);
        let e = v.remove(m);
        out.push(e);
        proof {
            assert(out@.to_multiset().add(v@.to_multiset()) =~= old(v)@.to_multiset());
        }
    }
    proof {
        assert(out@.to_multiset().add(v@.to_multiset()) =~= out@.to_multiset());
    }
    *v = out;
}

/// Sort book levels by ascending price; the collection of levels is kept.
pub fn sort_entries_asc(v: &mut Vec<OrderBookEntry>)
    ensures
        entries_sorted_asc(final(v)@),
        final(v)@.to_multiset() == old(v)@.to_multiset(),
        final(v)@.len() == old(v)@.len(),
{
    proof {
        broadcast use group_to_multiset_ensures;

    }
    let mut out: Vec<OrderBookEntry> = Vec::new();
    while v.len() > 0
        invariant
            entries_sorted_asc(out@),
            out@.to_multiset().add(v@.to_multiset()) == old(v)@.to_multiset(),
            out@.len() + v@.len() == old(v)@.len(),
            forall|i: int, j: int|
                0 <= i < out@.len() && 0 <= j < v@.len() ==> #[trigger] out@[i].price
                    <= #[trigger] v@[j].price,
        decreases v.len(),
    {
        proof {
            broadcast use group_to_multiset_ensures;

        }
        let m = index_of_min_price(v);
        let e = v.remove(m);
        out.push(e);
        proof {
            assert(out@.to_multiset().add(v@.to_multiset()) =~= old(v)@.to_multiset());
        }
    }
    proof {
        assert(out@.to_multiset().add(v@.to_multiset()) =~= out@.to_multiset());
    }
    *v = out;
}

/// The index of a level with the greatest price.
fn index_of_max_price(v: &Vec<OrderBookEntry>) -> (m: usize)
    requires
        v@.len() > 0,
    ensures
        m < v@.len(),
        forall|k: int| 0 <= k < v@.len() ==> v@[m as int].price >= #[trigger] v@[k].price,
{
    let mut m: usize = 0;
    let mut i: usize = 1;
    while i < v.len()
        invariant
            m < i <= v@.len(),
            forall|k: int| 0 <= k < i ==> v@[m as int].price >= #[trigger] v@[k].price,
        decreases v@.len() - i,
    {
        if v[i].price > v[m].price {
            m = i;
        }
        i = i + 1;
    }
    m
}

/// The index of a level with the least price.
fn index_of_min_price(v: &Vec<OrderBookEntry>) -> (m: usize)
    requires
        v@.len() > 0,
    ensures
        m < v@.len(),
        forall|k: int| 0 <= k < v@.len() ==> v@[m as int].price <= #[trigger] v@[k].price,
{
    let mut m: usize = 0;
    let mut i: usize = 1;
    while i < v.len()
        invariant
            m < i <= v@.len(),
            forall|k: int| 0 <= k < i ==> v@[m as int].price <= #[trigger] v@[k].price,
        decreases v@.len() - i,
    {
        if v[i].price < v[m].price {
            m = i;
        }
        i = i + 1;
    }
    m
}

/// Bid levels non-increasing by price.
pub fn bids_sorted_desc(v: &Vec<OrderBookEntry>) -> (r: bool)
    ensures
        r == entries_sorted_desc(v@),
{
    let mut i: usize = 1;
    while i < v.len()
        invariant
            i >= 1,
            forall|a: int, b: int| 0 <= a < b < i ==> #[trigger] v@[a].price >= #[trigger] v@[b].price,
        decreases v@.len() - i,
    {
        if v[i].price > v[i - 1].price {
            return false;
        }
        i = i + 1;
    }
    true
}

/// Ask levels non-decreasing by price.
pub fn asks_sorted_asc(v: &Vec<OrderBookEntry>) -> (r: bool)
    ensures
        r == entries_sorted_asc(v@),
{
    let mut i: usize = 1;
    while i < v.len()
        invariant
            i >= 1,
            forall|a: int, b: int| 0 <= a < b < i ==> #[trigger] v@[a].price <= #[trigger] v@[b].price,
        decreases v@.len() - i,
    {
        if v[i].price < v[i - 1].price {
            return false;
        }
        i = i + 1;
    }
    true
}

/// Best bid strictly under best ask, whenever both sides exist.
pub fn spread_ok(bids: &Vec<OrderBookEntry>, asks: &Vec<OrderBookEntry>) -> (r: bool)
    ensures
        r == (bids@.len() > 0 && asks@.len() > 0 ==> bids@[0].price < asks@[0].price),
{
    if bids.len() > 0 && asks.len() > 0 {
        bids[0].price < asks[0].price
    } else {
        true
    }
}

/// The payload a data message carries, as a closed union.
#[derive(Clone, Debug)]
pub enum MessagePayload {
    Quote(QuoteUpdate),
    Trade(TradeUpdate),
    OrderBook(OrderBookUpdate),
    /// A subscribe or unsubscribe frame carries the subscription itself.
    Subscription(WebSocketSubscription),
    /// Control and status messages carry no payload this library reads.
    Empty,
}

/// One inbound or outbound envelope of the stream.
#[derive(Clone, Debug)]
pub struct WebSocketMessage {
    pub message_type: MessageType,
    pub symbol: Option<String>,
    pub payload: MessagePayload,
    pub timestamp_ms: u64,
    pub sequence: Option<u64>,
}

impl WebSocketMessage {
    pub fn new(
        message_type: MessageType,
        symbol: Option<String>,
        payload: MessagePayload,
        now_ms: u64,
    ) -> (r: WebSocketMessage)
        ensures
            r.message_type == message_type,
            r.symbol == symbol,
            r.timestamp_ms == now_ms,
            r.sequence is None,
    {
        WebSocketMessage { message_type, symbol, payload, timestamp_ms: now_ms, sequence: None }
    }
}

/// An active or paused registration of interest in one symbol.
#[derive(Clone, Debug)]
pub struct WebSocketSubscription {
    pub symbol: String,
    pub message_types: Vec<MessageType>,
    pub subscribed_at_ms: u64,
    pub is_active: bool,
    pub subscription_id: String,
}

impl WebSocketSubscription {
    /// Create an active subscription; its id is the symbol joined with
    /// the creation instant.
    pub fn new(symbol: String, message_types: Vec<MessageType>, now_ms: u64) -> (r: Result<
        WebSocketSubscription,
        ValidationError,
    >)
        ensures
            symbol@.len() == 0 ==> r == Err::<WebSocketSubscription, ValidationError>(
                ValidationError::EmptySymbol,
            ),
            symbol@.len() > 0 && message_types@.len() == 0 ==> r == Err::<
                WebSocketSubscription,
                ValidationError,
            >(ValidationError::NoMessageTypes),
            symbol@.len() > 0 && message_types@.len() > 0 ==> {
                &&& r is Ok
                &&& r->Ok_0.symbol@ == symbol@
                &&& r->Ok_0.message_types@ == message_types@
                &&& r->Ok_0.subscribed_at_ms == now_ms
                &&& r->Ok_0.is_active
                &&& r->Ok_0.subscription_id@ == symbol@ + "_"@ + dec_digits(now_ms as int)
            },
    {
        if symbol.as_str().is_empty() {
            return Err(ValidationError::EmptySymbol);
        }
        if message_types.len() == 0 {
            return Err(ValidationError::NoMessageTypes);
        }
        let mut subscription_id = symbol.clone();
        subscription_id.append("_");
        let stamp = u64_to_dec(now_ms);
        subscription_id.append(stamp.as_str());
        Ok(
            WebSocketSubscription {
                symbol,
                message_types,
                subscribed_at_ms: now_ms,
                is_active: true,
                subscription_id,
            },
        )
    }

    /// Whether this subscription asks for the given kind of message.
    pub fn includes_message_type(&self, message_type: &MessageType) -> (r: bool)
        ensures
            r == self.message_types@.contains(*message_type),
    {
        let mut i: usize = 0;
        while i < self.message_types.len()
            invariant
                i <= self.message_types@.len(),
                forall|k: int| 0 <= k < i ==> self.message_types@[k] != *message_type,
            decreases self.message_types@.len() - i,
        {
            if self.message_types[i] == *message_type {
                return true;
            }
            i = i + 1;
        }
        false
    }
}

} // verus!
