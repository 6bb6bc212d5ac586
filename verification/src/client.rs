//! The streaming client: subscription management with a sliding-window
//! rate limit, message validation, ordering and deduplication, outbound
//! buffering, and the reconnection and failover state machine.
//!
//! The client owns no socket. Every method is a step of the protocol:
//! callers feed it decoded frames and instants, and it hands back frames
//! to transmit and reconnect decisions to act on.

use vstd::prelude::*;

use crate::backoff_delay;
use crate::backoff_delay_spec;
use crate::endpoint::{endpoint_should_retry, EndpointError, WebSocketEndpoint};
use crate::health::ConnectionHealth;
use crate::messages::{
    entries_sorted_asc, entries_sorted_desc, MessagePayload, MessageType, OrderBookUpdate,
    QuoteUpdate, TradeUpdate, ValidationError, WebSocketMessage, WebSocketSubscription,
};
use crate::policy::fresh_stamps;
use crate::strutil::{contains_ci, str_contains_ci, str_eq};

verus! {

/// The connection lifecycle state.
#[derive(Clone, Debug)]
pub enum ConnectionState {
    Disconnected,
    Connecting,
    Connected,
    Reconnecting { attempt: u32, next_retry_in_ms: u64 },
    Error { message: String, recoverable: bool },
}

impl ConnectionState {
    /// Messages can go out only while connected.
    pub fn can_send_messages(&self) -> (r: bool)
        ensures
            r == (self is Connected),
    {
        match self {
            ConnectionState::Connected => true,
            _ => false,
        }
    }

    pub fn is_error(&self) -> (r: bool)
        ensures
            r == (self is Error),
    {
        match self {
            ConnectionState::Error { .. } => true,
            _ => false,
        }
    }

    pub fn is_reconnecting(&self) -> (r: bool)
        ensures
            r == (self is Reconnecting),
    {
        match self {
            ConnectionState::Reconnecting { .. } => true,
            _ => false,
        }
    }
}

/// What became of an outbound message.
#[derive(Clone, Debug)]
pub enum SendOutcome {
    /// Connected: the caller should put this frame on the wire.
    Transmit(WebSocketMessage),
    /// Not connected: the message waits in the outbound buffer.
    Buffered,
    /// Not connected and the buffer is full: the message was dropped.
    BufferFull,
}

/// What the reconnection state machine decided after an error.
#[derive(Clone, Debug)]
pub enum ReconnectDecision {
    /// Retry the current endpoint after this delay.
    RetryAfter { delay_ms: u64 },
    /// Give up on the current endpoint and dial this one.
    Failover { url: String },
    /// Stay in the error state until a caller reconnects by hand.
    Remain,
}

/// Why a subscription request was refused.
#[derive(Clone, Copy, Debug, PartialEq, Eq, Structural)]
pub enum SubscribeError {
    RateLimitExceeded,
    TooManySubscriptions,
    AlreadySubscribed,
    NotSubscribed,
    EmptySymbol,
    NoMessageTypes,
}

/// How a subscription request went out.
#[derive(Clone, Debug)]
pub enum SubscribeOutcome {
    /// Connected: transmit this subscribe frame now.
    Sent(WebSocketMessage),
    /// Not connected: the frame will go out on the next resubscription.
    Deferred,
}

/// How the message pipeline classified one inbound frame.
#[derive(Clone, Copy, Debug, PartialEq, Eq, Structural)]
pub enum MessageDisposition {
    /// A heartbeat; only liveness bookkeeping happened.
    Heartbeat,
    /// Same key already seen within the deduplication window; dropped.
    Duplicate,
    /// Failed the data-quality checks; dropped.
    Rejected,
    /// Accepted and to be dispatched to its consumers.
    Processed { out_of_order: bool, suspicious: bool },
}

/// One remembered message key for deduplication.
#[derive(Clone, Debug)]
pub struct DedupEntry {
    pub symbol: String,
    pub message_type: MessageType,
    pub msg_timestamp_ms: u64,
    pub seen_at_ms: u64,
}

/// The last accepted sequence number of one symbol.
#[derive(Clone, Debug)]
pub struct SequenceEntry {
    pub symbol: String,
    pub last_sequence: u64,
}

/// Whether the key (symbol, kind, message timestamp) was seen within the
/// deduplication window before `now_ms`.
pub open spec fn dedup_match(
    e: DedupEntry,
    sym: Seq<char>,
    mt: MessageType,
    ts: u64,
    now_ms: u64,
    window_ms: u64,
) -> bool {
    e.symbol@ == sym && e.message_type == mt && e.msg_timestamp_ms == ts && e.seen_at_ms <= now_ms
        && now_ms - e.seen_at_ms < window_ms
}

pub open spec fn is_dup(
    cache: Seq<DedupEntry>,
    sym: Seq<char>,
    mt: MessageType,
    ts: u64,
    now_ms: u64,
    window_ms: u64,
) -> bool {
    exists|i: int|
        0 <= i < cache.len() && #[trigger] dedup_match(cache[i], sym, mt, ts, now_ms, window_ms)
}

/// A dedup entry still within the window that does not carry this key.
pub open spec fn dedup_keep(e: DedupEntry, sym: Seq<char>, mt: MessageType, ts: u64, now_ms: u64, window_ms: u64) -> bool {
    &&& e.seen_at_ms <= now_ms
    &&& now_ms - e.seen_at_ms < window_ms
    &&& !(e.symbol@ == sym && e.message_type == mt && e.msg_timestamp_ms == ts)
}

/// The sequence tracker holds at most one entry per symbol.
pub open spec fn tracker_unique(t: Seq<SequenceEntry>) -> bool {
    forall|i: int, j: int| 0 <= i < j < t.len() ==> #[trigger] t[i].symbol@ != #[trigger] t[j].symbol@
}

/// The tracked last sequence of a symbol, if any.
pub open spec fn tracked_sequence(t: Seq<SequenceEntry>, sym: Seq<char>) -> Option<u64> {
    if exists|i: int| 0 <= i < t.len() && #[trigger] t[i].symbol@ == sym {
        let i = choose|i: int| 0 <= i < t.len() && #[trigger] t[i].symbol@ == sym;
        Some(t[i].last_sequence)
    } else {
        None
    }
}

/// A message is in order when its sequence is above the tracked one.
pub open spec fn order_ok(t: Seq<SequenceEntry>, m: WebSocketMessage) -> bool {
    match (m.symbol, m.sequence) {
        (Some(sym), Some(seq)) => match tracked_sequence(t, sym@) {
            Some(last) => seq > last,
            None => true,
        },
        _ => true,
    }
}

/// One subscription per symbol.
pub open spec fn subs_unique(s: Seq<WebSocketSubscription>) -> bool {
    forall|i: int, j: int| 0 <= i < j < s.len() ==> #[trigger] s[i].symbol@ != #[trigger] s[j].symbol@
}

/// Whether some subscription (active or paused) exists for the symbol.
pub open spec fn has_sub(s: Seq<WebSocketSubscription>, sym: Seq<char>) -> bool {
    exists|i: int| 0 <= i < s.len() && #[trigger] s[i].symbol@ == sym
}

/// How many active subscriptions the symbol has.
pub open spec fn active_count(s: Seq<WebSocketSubscription>, sym: Seq<char>) -> int {
    s.filter(|x: WebSocketSubscription| x.symbol@ == sym && x.is_active).len() as int
}

/// Data-quality rule for quotes: positive prices and an uncrossed book.
pub open spec fn quote_quality_ok(q: QuoteUpdate) -> bool {
    q.symbol@.len() > 0 && q.bid > 0 && q.ask > 0 && q.last_price > 0 && q.bid < q.ask
}

/// A day range wider than half the last price is flagged, not rejected.
pub open spec fn quote_suspicious(q: QuoteUpdate) -> bool {
    q.high >= q.low && 2 * (q.high - q.low) > q.last_price
}

/// Data-quality rule for trades.
pub open spec fn trade_quality_ok(t: TradeUpdate) -> bool {
    t.symbol@.len() > 0 && t.trade_id@.len() > 0 && t.price > 0 && t.size > 0
}

/// Data-quality rule for book updates: sides sorted and not crossed.
pub open spec fn book_quality_ok(b: OrderBookUpdate) -> bool {
    &&& b.symbol@.len() > 0
    &&& entries_sorted_desc(b.bids@)
    &&& entries_sorted_asc(b.asks@)
    &&& b.bids@.len() > 0 && b.asks@.len() > 0 ==> b.bids@[0].price < b.asks@[0].price
}

/// The type-specific quality rule of a whole message. Kinds without a
/// data payload pass; a payload of the wrong shape fails.
pub open spec fn message_quality_ok(m: WebSocketMessage) -> bool {
    match m.message_type {
        MessageType::Quote => m.payload matches MessagePayload::Quote(q) && quote_quality_ok(q),
        MessageType::Trade => m.payload matches MessagePayload::Trade(t) && trade_quality_ok(t),
        MessageType::OrderBook => m.payload matches MessagePayload::OrderBook(b)
            && book_quality_ok(b),
        _ => true,
    }
}

/// Whether a processed message is flagged as suspicious.
pub open spec fn message_suspicious(m: WebSocketMessage) -> bool {
    m.message_type is Quote && (m.payload matches MessagePayload::Quote(q) && quote_suspicious(q))
}

/// The active subscriptions, in stored order.
pub open spec fn active_subs(s: Seq<WebSocketSubscription>) -> Seq<WebSocketSubscription> {
    s.filter(|x: WebSocketSubscription| x.is_active)
}

/// Two subscriptions with the same content.
pub open spec fn sub_like(a: WebSocketSubscription, b: WebSocketSubscription) -> bool {
    &&& a.symbol@ == b.symbol@
    &&& a.message_types@ == b.message_types@
    &&& a.subscribed_at_ms == b.subscribed_at_ms
    &&& a.is_active == b.is_active
    &&& a.subscription_id@ == b.subscription_id@
}

/// Whether `f` is the control frame of the given kind for subscription
/// `s`, stamped `now_ms`.
pub open spec fn frame_matches_sub(
    f: WebSocketMessage,
    kind: MessageType,
    s: WebSocketSubscription,
    now_ms: u64,
) -> bool {
    &&& f.message_type == kind
    &&& f.symbol matches Some(sym) && sym@ == s.symbol@
    &&& f.payload matches MessagePayload::Subscription(p) && sub_like(p, s)
    &&& f.timestamp_ms == now_ms
    &&& f.sequence is None
}

/// A message is recoverable unless it speaks of an authentication
/// problem; anything that looks like a transport problem certainly is.
pub open spec fn recoverable_message(msg: Seq<char>) -> bool {
    if contains_ci(msg, "connection"@) || contains_ci(msg, "timeout"@) || contains_ci(
        msg,
        "network"@,
    ) || contains_ci(msg, "refused"@) {
        true
    } else if contains_ci(msg, "auth"@) || contains_ci(msg, "unauthorized"@) || contains_ci(
        msg,
        "forbidden"@,
    ) {
        false
    } else {
        true
    }
}

/// The endpoint at `i` is the first, in priority order, whose cooldown
/// has elapsed (inactive endpoints never qualify).
pub open spec fn first_eligible_endpoint(
    eps: Seq<WebSocketEndpoint>,
    i: int,
    cooldown_ms: u64,
    now_ms: u64,
) -> bool {
    &&& 0 <= i < eps.len()
    &&& endpoint_should_retry(eps[i], cooldown_ms, now_ms)
    &&& forall|j: int| 0 <= j < i ==> !endpoint_should_retry(#[trigger] eps[j], cooldown_ms, now_ms)
}

/// An endpoint after one failed attempt: the failure count up by one
/// (saturating), the attempt stamped, and the endpoint deactivated
/// once the count reaches its threshold.
pub open spec fn charged_endpoint(e: WebSocketEndpoint, now_ms: u64) -> WebSocketEndpoint {
    let failures = if e.connection_failures < u32::MAX {
        (e.connection_failures + 1) as u32
    } else {
        e.connection_failures
    };
    WebSocketEndpoint {
        connection_failures: failures,
        last_connection_attempt_ms: Some(now_ms),
        is_active: e.is_active && failures < e.max_failures_before_disable,
        ..e
    }
}

/// The pool with the endpoint at `idx` charged for a failed attempt.
pub open spec fn charged_endpoints(eps: Seq<WebSocketEndpoint>, idx: int, now_ms: u64) -> Seq<
    WebSocketEndpoint,
> {
    if 0 <= idx < eps.len() {
        eps.update(idx, charged_endpoint(eps[idx], now_ms))
    } else {
        eps
    }
}

/// The error handler's whole transition. `pre` is the state before,
/// whose pool already holds `eps` (after any endpoint charging); `msg`
/// the error text. Only the lifecycle state, the attempt counter, the
/// endpoint cursor and the health record may change, and health is
/// reset. A recoverable error under the attempt ceiling schedules a
/// retry after the exponential delay; otherwise the state is the error
/// with its classified recoverable flag, and the first endpoint in
/// priority order whose cooldown has elapsed takes over with a fresh
/// attempt count — failover happens exactly when such an endpoint
/// exists, else the client remains in the error state.
pub open spec fn error_transition(
    pre: WebSocketService,
    eps: Seq<WebSocketEndpoint>,
    post: WebSocketService,
    msg: Seq<char>,
    now_ms: u64,
    decision: ReconnectDecision,
) -> bool {
    let recoverable = recoverable_message(msg);
    let under_ceiling = pre.reconnect_attempts < pre.max_reconnect_attempts;
    let cooldown = backoff_delay_spec(
        pre.base_reconnect_delay_ms,
        pre.reconnect_attempts,
        pre.max_reconnect_delay_ms,
    );
    &&& post == (WebSocketService {
        connection_state: post.connection_state,
        endpoints: post.endpoints,
        current_endpoint_index: post.current_endpoint_index,
        reconnect_attempts: post.reconnect_attempts,
        connection_health: post.connection_health,
        ..pre
    })
    &&& post.endpoints@ == eps
    &&& post.connection_health == ConnectionHealth::new_spec()
    &&& if pre.enable_auto_reconnect && recoverable && under_ceiling {
        let delay = backoff_delay_spec(
            pre.base_reconnect_delay_ms,
            (pre.reconnect_attempts + 1) as u32,
            pre.max_reconnect_delay_ms,
        );
        &&& post.reconnect_attempts == pre.reconnect_attempts + 1
        &&& post.current_endpoint_index == pre.current_endpoint_index
        &&& decision == (ReconnectDecision::RetryAfter { delay_ms: delay as u64 })
        &&& post.connection_state == (ConnectionState::Reconnecting {
            attempt: (pre.reconnect_attempts + 1) as u32,
            next_retry_in_ms: delay as u64,
        })
    } else {
        &&& (post.connection_state matches ConnectionState::Error { message, recoverable: rec }
            && message@ == msg && rec == recoverable)
        &&& if !recoverable || !under_ceiling {
            &&& (decision is Failover <==> exists|i: int|
                #[trigger] first_eligible_endpoint(eps, i, cooldown as u64, now_ms))
            &&& (decision matches ReconnectDecision::Failover { url } ==> exists|i: int|
                #[trigger] first_eligible_endpoint(eps, i, cooldown as u64, now_ms) && url@
                    == eps[i].url@ && post.current_endpoint_index == i && post.reconnect_attempts
                    == 0)
            &&& (decision is Remain ==> post.reconnect_attempts == pre.reconnect_attempts
                && post.current_endpoint_index == pre.current_endpoint_index)
            &&& !(decision is RetryAfter)
        } else {
            &&& decision is Remain
            &&& post.reconnect_attempts == pre.reconnect_attempts
            &&& post.current_endpoint_index == pre.current_endpoint_index
        }
    }
}

/// Classify an error message as recoverable or not.
pub fn is_error_recoverable(message: &str) -> (r: bool)
    ensures
        r == recoverable_message(message@),
{
    if str_contains_ci(message, "connection") || str_contains_ci(message, "timeout")
        || str_contains_ci(message, "network") || str_contains_ci(message, "refused") {
        true
    } else if str_contains_ci(message, "auth") || str_contains_ci(message, "unauthorized")
        || str_contains_ci(message, "forbidden") {
        false
    } else {
        true
    }
}

/// The streaming client.
pub struct WebSocketService {
    pub subscriptions: Vec<WebSocketSubscription>,
    pub connection_state: ConnectionState,
    pub endpoints: Vec<WebSocketEndpoint>,
    pub current_endpoint_index: usize,
    pub reconnect_attempts: u32,
    pub max_reconnect_attempts: u32,
    pub base_reconnect_delay_ms: u64,
    pub max_reconnect_delay_ms: u64,
    pub heartbeat_interval_ms: u64,
    pub heartbeat_timeout_ms: u64,
    pub last_heartbeat_ms: Option<u64>,
    pub connection_health: ConnectionHealth,
    pub message_buffer: Vec<WebSocketMessage>,
    pub max_buffer_size: usize,
    pub enable_auto_reconnect: bool,
    pub subscription_rate_limit: u32,
    pub subscription_window_ms: u64,
    pub subscription_timestamps: Vec<u64>,
    pub max_subscriptions_per_connection: usize,
    pub message_sequence_tracker: Vec<SequenceEntry>,
    pub message_deduplication_cache: Vec<DedupEntry>,
    pub deduplication_window_ms: u64,
    pub enable_message_ordering: bool,
    pub enable_deduplication: bool,
    pub data_quality_checks_enabled: bool,
}

impl WebSocketService {
    /// Structural invariant: one subscription and one tracked sequence
    /// per symbol, endpoints ordered by priority, a positive base delay.
    pub open spec fn wf(self) -> bool {
        &&& subs_unique(self.subscriptions@)
        &&& tracker_unique(self.message_sequence_tracker@)
        &&& self.base_reconnect_delay_ms >= 1
        &&& forall|i: int, j: int|
            0 <= i < j < self.endpoints@.len() ==> #[trigger] self.endpoints@[i].priority
                >= #[trigger] self.endpoints@[j].priority
    }

    /// A client with the default configuration: five reconnect attempts,
    /// one second of base delay, a thirty-second heartbeat, ten
    /// subscriptions per second, at most a hundred subscriptions, and a
    /// five-second deduplication window.
    pub fn new() -> (r: WebSocketService)
        ensures
            r.wf(),
            r.connection_state is Disconnected,
            r.subscriptions@.len() == 0,
            r.endpoints@.len() == 0,
            r.reconnect_attempts == 0,
            r.max_reconnect_attempts == 5,
            r.base_reconnect_delay_ms == 1000,
            r.max_reconnect_delay_ms == 60000,
            r.heartbeat_interval_ms == 30000,
            r.heartbeat_timeout_ms == 90000,
            r.message_buffer@.len() == 0,
            r.max_buffer_size == 1000,
            r.enable_auto_reconnect,
            r.subscription_rate_limit == 10,
            r.subscription_window_ms == 1000,
            r.subscription_timestamps@.len() == 0,
            r.max_subscriptions_per_connection == 100,
            r.message_sequence_tracker@.len() == 0,
            r.message_deduplication_cache@.len() == 0,
            r.deduplication_window_ms == 5000,
            r.enable_message_ordering,
            r.enable_deduplication,
            r.data_quality_checks_enabled,
            r.last_heartbeat_ms is None,
            r.connection_health == ConnectionHealth::new_spec(),
    {
        WebSocketService {
            subscriptions: Vec::new(),
            connection_state: ConnectionState::Disconnected,
            endpoints: Vec::new(),
            current_endpoint_index: 0,
            reconnect_attempts: 0,
            max_reconnect_attempts: 5,
            base_reconnect_delay_ms: 1000,
            max_reconnect_delay_ms: 60000,
            heartbeat_interval_ms: 30000,
            heartbeat_timeout_ms: 90000,
            last_heartbeat_ms: None,
            connection_health: ConnectionHealth::new(),
            message_buffer: Vec::new(),
            max_buffer_size: 1000,
            enable_auto_reconnect: true,
            subscription_rate_limit: 10,
            subscription_window_ms: 1000,
            subscription_timestamps: Vec::new(),
            max_subscriptions_per_connection: 100,
            message_sequence_tracker: Vec::new(),
            message_deduplication_cache: Vec::new(),
            deduplication_window_ms: 5000,
            enable_message_ordering: true,
            enable_deduplication: true,
            data_quality_checks_enabled: true,
        }
    }

    /// A client with a custom reconnect ceiling, base delay and
    /// heartbeat interval; the liveness timeout is three heartbeats.
    pub fn with_config(
        max_reconnect_attempts: u32,
        base_reconnect_delay_ms: u64,
        heartbeat_interval_ms: u64,
    ) -> (r: WebSocketService)
        ensures
            r.wf(),
            r.connection_state is Disconnected,
            r.max_reconnect_attempts == max_reconnect_attempts,
            r.base_reconnect_delay_ms == if base_reconnect_delay_ms >= 1 {
                base_reconnect_delay_ms as int
            } else {
                1
            },
            r.heartbeat_interval_ms == heartbeat_interval_ms,
            r.heartbeat_timeout_ms == if heartbeat_interval_ms <= u64::MAX / 3 {
                3 * heartbeat_interval_ms
            } else {
                u64::MAX as int
            },
            r.subscriptions@.len() == 0,
            r.endpoints@.len() == 0,
            r.message_deduplication_cache@.len() == 0,
            r.message_sequence_tracker@.len() == 0,
            r.subscription_timestamps@.len() == 0,
            r.reconnect_attempts == 0,
            r.enable_deduplication && r.enable_message_ordering
                && r.data_quality_checks_enabled,
            r.subscription_rate_limit == 10 && r.subscription_window_ms == 1000,
            r.max_subscriptions_per_connection == 100,
            r.max_buffer_size == 1000,
            r.deduplication_window_ms == 5000,
            r.max_reconnect_delay_ms == 60000,
    {
        let mut r = WebSocketService::new();
        r.max_reconnect_attempts = max_reconnect_attempts;
        r.base_reconnect_delay_ms = if base_reconnect_delay_ms >= 1 {
            base_reconnect_delay_ms
        } else {
            1
        };
        r.heartbeat_interval_ms = heartbeat_interval_ms;
        r.heartbeat_timeout_ms = if heartbeat_interval_ms <= u64::MAX / 3 {
            3 * heartbeat_interval_ms
        } else {
            u64::MAX
        };
        r
    }

    /// Add a candidate endpoint, keeping the pool ordered by priority,
    /// highest first.
    pub fn add_endpoint(&mut self, url: String, priority: u32) -> (r: Result<(), EndpointError>)
        requires
            old(self).wf(),
        ensures
            final(self).wf(),
            r is Err ==> *final(self) == *old(self),
            r is Err <==> url@.len() == 0 || !crate::endpoint::url_well_formed(url@),
            r is Ok ==> final(self).endpoints@.len() == old(self).endpoints@.len() + 1,
            r is Ok ==> exists|k: int|
                0 <= k <= old(self).endpoints@.len() && #[trigger] final(self).endpoints@[k].url@
                    == url@ && final(self).endpoints@[k].priority == priority && final(self).endpoints@[k].is_active && final(self).endpoints@[k].connection_failures == 0
                    && final(self).endpoints@[k].max_failures_before_disable == 3 && final(self).endpoints@[k].last_connection_attempt_ms is None && final(self).endpoints@
                    == old(self).endpoints@.insert(k, final(self).endpoints@[k]),
            final(self).subscriptions@ == old(self).subscriptions@,
            final(self).connection_state == old(self).connection_state,
            final(self).message_buffer@ == old(self).message_buffer@,
    {
        let endpoint = match WebSocketEndpoint::new(url, priority) {
            Ok(e) => e,
            Err(err) => {
                return Err(err);
            },
        };
        let mut k: usize = 0;
        while k < self.endpoints.len()
            invariant
                k <= self.endpoints@.len(),
                forall|i: int| 0 <= i < k ==> #[trigger] self.endpoints@[i].priority >= priority,
            ensures
                k <= self.endpoints@.len(),
                forall|i: int| 0 <= i < k ==> #[trigger] self.endpoints@[i].priority >= priority,
                k < self.endpoints@.len() ==> self.endpoints@[k as int].priority < priority,
            decreases self.endpoints@.len() - k,
        {
            if self.endpoints[k].priority < priority {
                break ;
            }
            k = k + 1;
        }
        self.endpoints.insert(k, endpoint);
        proof {
            old(self).endpoints@.insert_ensures(k as int, endpoint);
            assert forall|i: int, j: int|
                0 <= i < j < self.endpoints@.len() implies #[trigger] self.endpoints@[i].priority
                >= #[trigger] self.endpoints@[j].priority by {
                let eps = old(self).endpoints@;
                if i < k && j < k {
                } else if i < k && j == k {
                } else if i == k && j > k {
                    assert(self.endpoints@[j] == eps[j - 1]);
                    assert(eps[k as int].priority < priority);
                    assert(eps[j - 1].priority <= eps[k as int].priority);
                } else if i < k && j > k {
                } else if i > k && j > k {
                } else {
                }
            }
        }
        Ok(())
    }

    /// The exponential reconnect delay for the current attempt count.
    pub fn calculate_reconnect_delay(&self) -> (delay_ms: u64)
        requires
            self.wf(),
        ensures
            delay_ms == backoff_delay_spec(
                self.base_reconnect_delay_ms,
                self.reconnect_attempts,
                self.max_reconnect_delay_ms,
            ),
            delay_ms <= self.max_reconnect_delay_ms,
    {
        backoff_delay(
            self.base_reconnect_delay_ms,
            self.reconnect_attempts,
            self.max_reconnect_delay_ms,
        )
    }

    /// The first endpoint, in priority order, whose cooldown has
    /// elapsed; it becomes the current endpoint.
    pub fn get_next_endpoint(&mut self, now_ms: u64) -> (r: Option<usize>)
        requires
            old(self).wf(),
        ensures
            final(self).wf(),
            final(self).endpoints@ == old(self).endpoints@,
            final(self).subscriptions@ == old(self).subscriptions@,
            final(self).connection_state == old(self).connection_state,
            r is None ==> *final(self) == *old(self) && forall|i: int|
                0 <= i < old(self).endpoints@.len() ==> !endpoint_should_retry(
                    #[trigger] old(self).endpoints@[i],
                    backoff_delay_spec(
                        old(self).base_reconnect_delay_ms,
                        old(self).reconnect_attempts,
                        old(self).max_reconnect_delay_ms,
                    ) as u64,
                    now_ms,
                ),
            r matches Some(idx) ==> {
                &&& idx < old(self).endpoints@.len()
                &&& endpoint_should_retry(
                    old(self).endpoints@[idx as int],
                    backoff_delay_spec(
                        old(self).base_reconnect_delay_ms,
                        old(self).reconnect_attempts,
                        old(self).max_reconnect_delay_ms,
                    ) as u64,
                    now_ms,
                )
                &&& forall|i: int|
                    0 <= i < idx ==> !endpoint_should_retry(
                        #[trigger] old(self).endpoints@[i],
                        backoff_delay_spec(
                            old(self).base_reconnect_delay_ms,
                            old(self).reconnect_attempts,
                            old(self).max_reconnect_delay_ms,
                        ) as u64,
                        now_ms,
                    )
                &&& final(self).current_endpoint_index == idx
                &&& *final(self) == (WebSocketService {
                    current_endpoint_index: idx,
                    ..*old(self)
                })
            },
    {
        let cooldown = self.calculate_reconnect_delay();
        let mut i: usize = 0;
        while i < self.endpoints.len()
            invariant
                i <= self.endpoints@.len(),
                forall|k: int|
                    0 <= k < i ==> !endpoint_should_retry(
                        #[trigger] self.endpoints@[k],
                        cooldown,
                        now_ms,
                    ),
            ensures
                i <= self.endpoints@.len(),
                forall|k: int|
                    0 <= k < i ==> !endpoint_should_retry(
                        #[trigger] self.endpoints@[k],
                        cooldown,
                        now_ms,
                    ),
                i < self.endpoints@.len() ==> endpoint_should_retry(
                    self.endpoints@[i as int],
                    cooldown,
                    now_ms,
                ),
            decreases self.endpoints@.len() - i,
        {
            if self.endpoints[i].should_retry(cooldown, now_ms) {
                break ;
            }
            i = i + 1;
        }
        if i < self.endpoints.len() {
            self.current_endpoint_index = i;
            Some(i)
        } else {
            None
        }
    }

    /// Begin a connection attempt toward `url`: when the pool is empty
    /// it first gains this address as a fresh endpoint at default
    /// priority, and the state becomes connecting. The caller dials and
    /// reports the result.
    pub fn connect(&mut self, url: &str) -> (r: Result<(), EndpointError>)
        requires
            old(self).wf(),
        ensures
            final(self).wf(),
            old(self).endpoints@.len() == 0 && (url@.len() == 0 || !crate::endpoint::url_well_formed(
                url@,
            )) <==> r is Err,
            r is Ok ==> final(self).connection_state is Connecting,
            r is Ok && old(self).endpoints@.len() > 0 ==> final(self).endpoints@ == old(self).endpoints@,
            r is Ok && old(self).endpoints@.len() == 0 ==> {
                &&& final(self).endpoints@.len() == 1
                &&& final(self).endpoints@[0].url@ == url@
                &&& final(self).endpoints@[0].priority == 100
                &&& final(self).endpoints@[0].is_active
                &&& final(self).endpoints@[0].connection_failures == 0
                &&& final(self).endpoints@[0].max_failures_before_disable == 3
                &&& final(self).endpoints@[0].last_connection_attempt_ms is None
            },
            final(self).subscriptions@ == old(self).subscriptions@,
            final(self).message_buffer@ == old(self).message_buffer@,
    {
        if self.endpoints.len() == 0 {
            let owned = url.to_owned();
            self.add_endpoint(owned, 100)?;
        }
        self.connection_state = ConnectionState::Connecting;
        Ok(())
    }

    /// The handshake succeeded: become connected, reset the attempt
    /// counter and the health record, credit the current endpoint, and
    /// hand back every buffered frame followed by a subscribe frame for
    /// each active subscription, in stored order.
    pub fn on_connect_success(&mut self, now_ms: u64) -> (frames: Vec<WebSocketMessage>)
        requires
            old(self).wf(),
        ensures
            final(self).wf(),
            final(self).connection_state is Connected,
            final(self).reconnect_attempts == 0,
            final(self).message_buffer@.len() == 0,
            final(self).subscriptions@ == old(self).subscriptions@,
            frames@.len() == old(self).message_buffer@.len() + active_subs(
                old(self).subscriptions@,
            ).len(),
            forall|i: int|
                0 <= i < old(self).message_buffer@.len() ==> frames@[i] == old(self).message_buffer@[i],
            forall|i: int|
                old(self).message_buffer@.len() <= i < frames@.len() ==> frame_matches_sub(
                    #[trigger] frames@[i],
                    MessageType::Subscribe,
                    active_subs(old(self).subscriptions@)[i - old(self).message_buffer@.len()],
                    now_ms,
                ),
            old(self).current_endpoint_index < old(self).endpoints@.len() ==> final(self).endpoints@ == old(self).endpoints@.update(
                old(self).current_endpoint_index as int,
                final(self).endpoints@[old(self).current_endpoint_index as int],
            ) && final(self).endpoints@[old(self).current_endpoint_index as int].connection_failures
                == 0 && final(self).endpoints@[old(self).current_endpoint_index as int].is_active,
            old(self).current_endpoint_index >= old(self).endpoints@.len() ==> final(self).endpoints@ == old(self).endpoints@,
    {
        self.connection_state = ConnectionState::Connected;
        self.reconnect_attempts = 0;
        self.connection_health.reset();
        self.connection_health.mark_connected(now_ms);
        if self.current_endpoint_index < self.endpoints.len() {
            let idx = self.current_endpoint_index;
            let mut e = self.endpoints.remove(idx);
            e.record_success(now_ms);
            self.endpoints.insert(idx, e);
            proof {
                assert(self.endpoints@ =~= old(self).endpoints@.update(
                    idx as int,
                    self.endpoints@[idx as int],
                ));
            }
        }
        let mut frames = self.flush_message_buffer(now_ms);
        let mut resub = self.resubscribe_all(now_ms);
        let ghost pre = frames@;
        let ghost tail = resub@;
        frames.append(&mut resub);
        proof {
            assert(frames@.len() == pre.len() + tail.len());
        }
        frames
    }

    /// A subscribe frame for every active subscription, in stored order.
    fn resubscribe_all(&self, now_ms: u64) -> (frames: Vec<WebSocketMessage>)
        ensures
            frames@.len() == active_subs(self.subscriptions@).len(),
            forall|i: int|
                0 <= i < frames@.len() ==> frame_matches_sub(
                    #[trigger] frames@[i],
                    MessageType::Subscribe,
                    active_subs(self.subscriptions@)[i],
                    now_ms,
                ),
    {
        let mut frames: Vec<WebSocketMessage> = Vec::new();
        let mut i: usize = 0;
        while i < self.subscriptions.len()
            invariant
                i <= self.subscriptions@.len(),
                frames@.len() == active_subs(self.subscriptions@.subrange(0, i as int)).len(),
                forall|k: int|
                    0 <= k < frames@.len() ==> frame_matches_sub(
                        #[trigger] frames@[k],
                        MessageType::Subscribe,
                        active_subs(self.subscriptions@.subrange(0, i as int))[k],
                        now_ms,
                    ),
            decreases self.subscriptions@.len() - i,
        {
            proof {
                reveal_with_fuel(Seq::filter, 2);
                let prefix = self.subscriptions@.subrange(0, i as int + 1);
                assert(prefix.drop_last() =~= self.subscriptions@.subrange(0, i as int));
                assert(prefix.last() == self.subscriptions@[i as int]);
            }
            let s = &self.subscriptions[i];
            if s.is_active {
                let sub = duplicate_subscription(s);
                let symbol = sub.symbol.clone();
                frames.push(
                    WebSocketMessage {
                        message_type: MessageType::Subscribe,
                        symbol: Some(symbol),
                        payload: MessagePayload::Subscription(sub),
                        timestamp_ms: now_ms,
                        sequence: None,
                    },
                );
            }
            i = i + 1;
        }
        proof {
            assert(self.subscriptions@.subrange(0, self.subscriptions@.len() as int)
                =~= self.subscriptions@);
        }
        frames
    }

    /// Drop the connection by hand; automatic reconnection stops.
    pub fn disconnect(&mut self)
        ensures
            final(self).connection_state is Disconnected,
            !final(self).enable_auto_reconnect,
            final(self).connection_health == ConnectionHealth::new_spec(),
            final(self).subscriptions@ == old(self).subscriptions@,
            final(self).endpoints@ == old(self).endpoints@,
            final(self).wf() == old(self).wf(),
    {
        self.connection_state = ConnectionState::Disconnected;
        self.connection_health.reset();
        self.enable_auto_reconnect = false;
    }

    /// Send a message, or buffer it while disconnected; a full buffer
    /// drops the message.
    pub fn send_message(&mut self, message: WebSocketMessage, now_ms: u64) -> (r: SendOutcome)
        ensures
            old(self).connection_state is Connected ==> r == SendOutcome::Transmit(message)
                && final(self).message_buffer@ == old(self).message_buffer@,
            !(old(self).connection_state is Connected) && old(self).message_buffer@.len() < old(self).max_buffer_size ==> r is Buffered && final(self).message_buffer@ == old(self).message_buffer@.push(message),
            !(old(self).connection_state is Connected) && old(self).message_buffer@.len() >= old(self).max_buffer_size ==> r is BufferFull && final(self).message_buffer@ == old(self).message_buffer@,
            *final(self) == (WebSocketService {
                message_buffer: final(self).message_buffer,
                connection_health: final(self).connection_health,
                ..*old(self)
            }),
            !(old(self).connection_state is Connected) ==> final(self).connection_health == old(
                self,
            ).connection_health,
            old(self).connection_state is Connected ==> final(self).connection_health
                == (ConnectionHealth {
                last_message_sent_ms: Some(now_ms),
                messages_sent_count: final(self).connection_health.messages_sent_count,
                ..old(self).connection_health
            }) && final(self).connection_health.messages_sent_count as int == if old(
                self,
            ).connection_health.messages_sent_count < u64::MAX {
                old(self).connection_health.messages_sent_count + 1
            } else {
                old(self).connection_health.messages_sent_count as int
            },
            final(self).wf() == old(self).wf(),
    {
        if !self.connection_state.can_send_messages() {
            if self.message_buffer.len() < self.max_buffer_size {
                self.message_buffer.push(message);
                return SendOutcome::Buffered;
            }
            return SendOutcome::BufferFull;
        }
        self.connection_health.record_message_sent(now_ms);
        SendOutcome::Transmit(message)
    }

    /// While connected, hand back all buffered frames in order and empty
    /// the buffer; otherwise nothing happens.
    pub fn flush_message_buffer(&mut self, now_ms: u64) -> (frames: Vec<WebSocketMessage>)
        ensures
            old(self).connection_state is Connected ==> frames@ == old(self).message_buffer@
                && final(self).message_buffer@.len() == 0,
            !(old(self).connection_state is Connected) ==> frames@.len() == 0 && *final(self)
                == *old(self),
            *final(self) == (WebSocketService {
                message_buffer: final(self).message_buffer,
                connection_health: final(self).connection_health,
                ..*old(self)
            }),
            final(self).wf() == old(self).wf(),
    {
        if self.connection_state.can_send_messages() {
            let mut drained: Vec<WebSocketMessage> = Vec::new();
            std::mem::swap(&mut drained, &mut self.message_buffer);
            self.connection_health.record_message_sent(now_ms);
            drained
        } else {
            Vec::new()
        }
    }

    /// React to a connection error: record it in the state, and decide
    /// between a delayed retry, a failover to the next eligible
    /// endpoint, and remaining in the error state. Recoverable errors
    /// retry while the attempt ceiling allows; past the ceiling, or on a
    /// non-recoverable error, the next endpoint whose cooldown has
    /// elapsed takes over with a fresh attempt count.
    pub fn handle_connection_error(&mut self, error_message: String, now_ms: u64) -> (decision:
        ReconnectDecision)
        requires
            old(self).wf(),
        ensures
            final(self).wf(),
            error_transition(
                *old(self),
                old(self).endpoints@,
                *final(self),
                error_message@,
                now_ms,
                decision,
            ),
    {
        let recoverable = is_error_recoverable(error_message.as_str());
        self.connection_state = ConnectionState::Error { message: error_message, recoverable };
        self.connection_health.reset();
        if self.enable_auto_reconnect && recoverable && self.reconnect_attempts
            < self.max_reconnect_attempts {
            self.reconnect_attempts = self.reconnect_attempts + 1;
            let delay_ms = self.calculate_reconnect_delay();
            self.connection_state = ConnectionState::Reconnecting {
                attempt: self.reconnect_attempts,
                next_retry_in_ms: delay_ms,
            };
            ReconnectDecision::RetryAfter { delay_ms }
        } else if !recoverable || self.reconnect_attempts >= self.max_reconnect_attempts {
            let ghost cooldown = backoff_delay_spec(
                old(self).base_reconnect_delay_ms,
                old(self).reconnect_attempts,
                old(self).max_reconnect_delay_ms,
            );
            match self.get_next_endpoint(now_ms) {
                Some(idx) => {
                    self.reconnect_attempts = 0;
                    let url = self.endpoints[idx].url.clone();
                    proof {
                        assert(first_eligible_endpoint(
                            old(self).endpoints@,
                            idx as int,
                            cooldown as u64,
                            now_ms,
                        ));
                    }
                    ReconnectDecision::Failover { url }
                },
                None => {
                    proof {
                        if exists|i: int|
                            #[trigger] first_eligible_endpoint(
                                old(self).endpoints@,
                                i,
                                cooldown as u64,
                                now_ms,
                            ) {
                            let w = choose|i: int|
                                #[trigger] first_eligible_endpoint(
                                    old(self).endpoints@,
                                    i,
                                    cooldown as u64,
                                    now_ms,
                                );
                            assert(endpoint_should_retry(
                                old(self).endpoints@[w],
                                cooldown as u64,
                                now_ms,
                            ));
                        }
                    }
                    ReconnectDecision::Remain
                },
            }
        } else {
            ReconnectDecision::Remain
        }
    }

    /// A connection attempt failed: the current endpoint is charged —
    /// failure count up by one (saturating), attempt stamped,
    /// deactivated at its threshold — and the error path then decides
    /// between retry, failover and remaining in error, as
    /// `error_transition` states.
    pub fn on_connect_failure(&mut self, error_message: String, now_ms: u64) -> (decision:
        ReconnectDecision)
        requires
            old(self).wf(),
        ensures
            final(self).wf(),
            error_transition(
                *old(self),
                charged_endpoints(
                    old(self).endpoints@,
                    old(self).current_endpoint_index as int,
                    now_ms,
                ),
                *final(self),
                error_message@,
                now_ms,
                decision,
            ),
    {
        if self.current_endpoint_index < self.endpoints.len() {
            let idx = self.current_endpoint_index;
            let mut e = self.endpoints.remove(idx);
            e.record_failure(now_ms);
            self.endpoints.insert(idx, e);
            proof {
                assert(self.endpoints@[idx as int] == charged_endpoint(
                    old(self).endpoints@[idx as int],
                    now_ms,
                ));
                assert(self.endpoints@ =~= charged_endpoints(
                    old(self).endpoints@,
                    idx as int,
                    now_ms,
                ));
                assert(*self == (WebSocketService { endpoints: self.endpoints, ..*old(self) }));
            }
        }
        let ghost mid = *self;
        let ghost msg_view = error_message@;
        let decision = self.handle_connection_error(error_message, now_ms);
        proof {
            assert(error_transition(mid, mid.endpoints@, *self, msg_view, now_ms, decision));
        }
        decision
    }

    /// The address to dial for a retry of the current endpoint; the
    /// state becomes connecting.
    pub fn attempt_reconnect(&mut self) -> (r: Option<String>)
        ensures
            r is Some <==> old(self).current_endpoint_index < old(self).endpoints@.len(),
            r matches Some(url) ==> url@ == old(self).endpoints@[old(self).current_endpoint_index as int].url@ && final(self).connection_state is Connecting,
            r is None ==> *final(self) == *old(self),
            final(self).endpoints@ == old(self).endpoints@,
            final(self).subscriptions@ == old(self).subscriptions@,
            final(self).wf() == old(self).wf(),
    {
        if self.current_endpoint_index < self.endpoints.len() {
            let url = self.endpoints[self.current_endpoint_index].url.clone();
            self.connection_state = ConnectionState::Connecting;
            Some(url)
        } else {
            None
        }
    }

    /// The liveness check: when no inbound traffic arrived within the
    /// timeout, the connection is treated exactly like a failed socket
    /// and runs the error transition; otherwise only the uptime is
    /// refreshed.
    pub fn health_check(&mut self, now_ms: u64) -> (r: Option<ReconnectDecision>)
        requires
            old(self).wf(),
        ensures
            final(self).wf(),
            r is Some <==> !crate::health::health_is_live(
                old(self).connection_health,
                old(self).heartbeat_timeout_ms,
                now_ms,
            ),
            r matches Some(decision) ==> error_transition(
                *old(self),
                old(self).endpoints@,
                *final(self),
                "connection liveness timeout: no inbound messages"@,
                now_ms,
                decision,
            ),
            r is None ==> *final(self) == (WebSocketService {
                connection_health: final(self).connection_health,
                ..*old(self)
            }),
            r is None ==> final(self).connection_health == (ConnectionHealth {
                connection_uptime_ms: final(self).connection_health.connection_uptime_ms,
                ..old(self).connection_health
            }),
            r is None ==> final(self).connection_health.connection_uptime_ms as int == match old(
                self,
            ).connection_health.connection_established_at_ms {
                Some(est) => if est <= now_ms {
                    now_ms - est
                } else {
                    old(self).connection_health.connection_uptime_ms as int
                },
                None => old(self).connection_health.connection_uptime_ms as int,
            },
    {
        if !self.connection_health.is_healthy(self.heartbeat_timeout_ms, now_ms) {
            let message = String::from_str("connection liveness timeout: no inbound messages");
            proof {
                reveal_strlit("connection liveness timeout: no inbound messages");
                reveal_strlit("connection");
                assert(message@.subrange(0, 10int) =~= "connection"@);
                assert(crate::strutil::lower_seq(message@.subrange(0, 10int))
                    == crate::strutil::lower_seq("connection"@));
            }
            Some(self.handle_connection_error(message, now_ms))
        } else {
            self.connection_health.update_uptime(now_ms);
            None
        }
    }

    /// Build and send (or buffer) a heartbeat ping, recording it in the
    /// health metrics.
    pub fn send_ping(&mut self, now_ms: u64) -> (r: SendOutcome)
        ensures
            final(self).connection_health.last_ping_sent_ms == Some(now_ms),
            old(self).connection_state is Connected ==> (r matches SendOutcome::Transmit(m)
                && m.message_type is Heartbeat && m.timestamp_ms == now_ms),
            final(self).subscriptions@ == old(self).subscriptions@,
            final(self).wf() == old(self).wf(),
    {
        self.connection_health.record_ping_sent(now_ms);
        let ping = WebSocketMessage {
            message_type: MessageType::Heartbeat,
            symbol: None,
            payload: MessagePayload::Empty,
            timestamp_ms: now_ms,
            sequence: None,
        };
        self.send_message(ping, now_ms)
    }

    /// Note a pong from the server.
    pub fn handle_pong(&mut self, now_ms: u64)
        ensures
            final(self).connection_health.last_pong_received_ms == Some(now_ms),
            final(self).subscriptions@ == old(self).subscriptions@,
            final(self).wf() == old(self).wf(),
    {
        self.connection_health.record_pong_received(now_ms);
    }
}

/// The dedup entries kept when the key (sym, mt, ts) is refreshed at
/// `now_ms`: entries still in the window that carry another key.
pub open spec fn dedup_kept(
    cache: Seq<DedupEntry>,
    sym: Seq<char>,
    mt: MessageType,
    ts: u64,
    now_ms: u64,
    window_ms: u64,
) -> Seq<DedupEntry> {
    cache.filter(|e: DedupEntry| dedup_keep(e, sym, mt, ts, now_ms, window_ms))
}

/// The tracker entries for symbols other than `sym`.
pub open spec fn tracker_others(t: Seq<SequenceEntry>, sym: Seq<char>) -> Seq<SequenceEntry> {
    t.filter(|e: SequenceEntry| e.symbol@ != sym)
}

/// Whether the message carries a key already seen within the window.
pub open spec fn msg_is_dup(s: WebSocketService, m: WebSocketMessage, now_ms: u64) -> bool {
    m.symbol matches Some(sym) && is_dup(
        s.message_deduplication_cache@,
        sym@,
        m.message_type,
        m.timestamp_ms,
        now_ms,
        s.deduplication_window_ms,
    )
}

impl WebSocketService {
    /// The index of the subscription for `symbol`, if any.
    fn find_subscription(&self, symbol: &str) -> (r: Option<usize>)
        ensures
            r matches Some(i) ==> i < self.subscriptions@.len() && self.subscriptions@[
                i as int].symbol@ == symbol@,
            r is None ==> !has_sub(self.subscriptions@, symbol@),
    {
        let mut i: usize = 0;
        while i < self.subscriptions.len()
            invariant
                i <= self.subscriptions@.len(),
                forall|k: int| 0 <= k < i ==> #[trigger] self.subscriptions@[k].symbol@ != symbol@,
            decreases self.subscriptions@.len() - i,
        {
            if str_eq(self.subscriptions[i].symbol.as_str(), symbol) {
                return Some(i);
            }
            i = i + 1;
        }
        None
    }

    /// Whether a subscription for the symbol exists.
    pub fn is_subscribed_to(&self, symbol: &str) -> (r: bool)
        ensures
            r == has_sub(self.subscriptions@, symbol@),
    {
        match self.find_subscription(symbol) {
            Some(_) => true,
            None => false,
        }
    }

    /// The number of tracked subscriptions.
    pub fn get_subscription_count(&self) -> (r: usize)
        ensures
            r == self.subscriptions@.len(),
    {
        self.subscriptions.len()
    }

    /// The tracked subscriptions, in stored order.
    pub fn get_subscriptions(&self) -> (r: &Vec<WebSocketSubscription>)
        ensures
            r@ == self.subscriptions@,
    {
        &self.subscriptions
    }

    /// Configure the subscription rate limit.
    pub fn set_rate_limit(&mut self, limit: u32, window_ms: u64)
        ensures
            *final(self) == (WebSocketService {
                subscription_rate_limit: limit,
                subscription_window_ms: window_ms,
                ..*old(self)
            }),
    {
        self.subscription_rate_limit = limit;
        self.subscription_window_ms = window_ms;
    }

    /// Configure the subscription ceiling.
    pub fn set_max_subscriptions(&mut self, max: usize)
        ensures
            *final(self) == (WebSocketService {
                max_subscriptions_per_connection: max,
                ..*old(self)
            }),
    {
        self.max_subscriptions_per_connection = max;
    }

    /// How many recent subscription requests count against the window,
    /// with the configured limit and window.
    pub fn get_rate_limit_status(&self, now_ms: u64) -> (r: (usize, u32, u64))
        ensures
            r.0 == fresh_stamps(
                self.subscription_timestamps@,
                now_ms,
                self.subscription_window_ms,
            ).len(),
            r.1 == self.subscription_rate_limit,
            r.2 == self.subscription_window_ms,
    {
        let mut count: usize = 0;
        let mut i: usize = 0;
        while i < self.subscription_timestamps.len()
            invariant
                i <= self.subscription_timestamps@.len(),
                count == fresh_stamps(
                    self.subscription_timestamps@.subrange(0, i as int),
                    now_ms,
                    self.subscription_window_ms,
                ).len(),
            decreases self.subscription_timestamps@.len() - i,
        {
            let t = self.subscription_timestamps[i];
            proof {
                reveal_with_fuel(Seq::filter, 2);
                let prefix = self.subscription_timestamps@.subrange(0, i as int + 1);
                assert(prefix.drop_last() =~= self.subscription_timestamps@.subrange(0, i as int));
                assert(prefix.last() == t);
            }
            if t <= now_ms && now_ms - t <= self.subscription_window_ms {
                count = count + 1;
            }
            i = i + 1;
        }
        proof {
            assert(self.subscription_timestamps@.subrange(
                0,
                self.subscription_timestamps@.len() as int,
            ) =~= self.subscription_timestamps@);
        }
        (count, self.subscription_rate_limit, self.subscription_window_ms)
    }

    /// Drop request stamps that have left the window.
    fn evict_stale_stamps(&mut self, now_ms: u64)
        ensures
            final(self).subscription_timestamps@ == fresh_stamps(
                old(self).subscription_timestamps@,
                now_ms,
                old(self).subscription_window_ms,
            ),
            *final(self) == (WebSocketService {
                subscription_timestamps: final(self).subscription_timestamps,
                ..*old(self)
            }),
    {
        let mut kept: Vec<u64> = Vec::new();
        let mut i: usize = 0;
        while i < self.subscription_timestamps.len()
            invariant
                i <= self.subscription_timestamps@.len(),
                kept@ == fresh_stamps(
                    self.subscription_timestamps@.subrange(0, i as int),
                    now_ms,
                    self.subscription_window_ms,
                ),
            decreases self.subscription_timestamps@.len() - i,
        {
            let t = self.subscription_timestamps[i];
            proof {
                reveal_with_fuel(Seq::filter, 2);
                let prefix = self.subscription_timestamps@.subrange(0, i as int + 1);
                assert(prefix.drop_last() =~= self.subscription_timestamps@.subrange(0, i as int));
                assert(prefix.last() == t);
            }
            if t <= now_ms && now_ms - t <= self.subscription_window_ms {
                kept.push(t);
            }
            i = i + 1;
        }
        proof {
            assert(self.subscription_timestamps@.subrange(
                0,
                self.subscription_timestamps@.len() as int,
            ) =~= self.subscription_timestamps@);
        }
        self.subscription_timestamps = kept;
    }

    /// Register interest in a symbol. The request is refused when the
    /// sliding-window rate limit is hit, when the subscription ceiling
    /// is reached, when the symbol is already subscribed, or when the
    /// request itself is invalid; otherwise the subscription is
    /// recorded, and the subscribe frame goes out at once if connected,
    /// or with the next resubscription if not.
    pub fn subscribe_to_symbol(
        &mut self,
        symbol: String,
        message_types: Vec<MessageType>,
        now_ms: u64,
    ) -> (r: Result<SubscribeOutcome, SubscribeError>)
        requires
            old(self).wf(),
        ensures
            final(self).wf(),
            ({
                let fresh = fresh_stamps(
                    old(self).subscription_timestamps@,
                    now_ms,
                    old(self).subscription_window_ms,
                );
                let limited = fresh.len() >= old(self).subscription_rate_limit;
                let over = old(self).subscriptions@.len() >= old(self).max_subscriptions_per_connection;
                let already = has_sub(old(self).subscriptions@, symbol@);
                &&& r == Err::<SubscribeOutcome, SubscribeError>(SubscribeError::RateLimitExceeded)
                    <==> limited
                &&& r == Err::<SubscribeOutcome, SubscribeError>(
                    SubscribeError::TooManySubscriptions,
                ) <==> !limited && over
                &&& r == Err::<SubscribeOutcome, SubscribeError>(SubscribeError::AlreadySubscribed)
                    <==> !limited && !over && already
                &&& r == Err::<SubscribeOutcome, SubscribeError>(SubscribeError::EmptySymbol)
                    <==> !limited && !over && !already && symbol@.len() == 0
                &&& r == Err::<SubscribeOutcome, SubscribeError>(SubscribeError::NoMessageTypes)
                    <==> !limited && !over && !already && symbol@.len() > 0
                    && message_types@.len() == 0
                &&& r is Ok <==> !limited && !over && !already && symbol@.len() > 0
                    && message_types@.len() > 0
                &&& r is Err ==> final(self).subscriptions@ == old(self).subscriptions@
                &&& r is Err ==> final(self).subscription_timestamps@ == fresh
                &&& r is Ok ==> {
                    &&& final(self).subscriptions@.len() == old(self).subscriptions@.len() + 1
                    &&& final(self).subscriptions@.drop_last() == old(self).subscriptions@
                    &&& final(self).subscriptions@.last().symbol@ == symbol@
                    &&& final(self).subscriptions@.last().message_types@ == message_types@
                    &&& final(self).subscriptions@.last().subscribed_at_ms == now_ms
                    &&& final(self).subscriptions@.last().is_active
                    &&& final(self).subscription_timestamps@ == fresh.push(now_ms)
                    &&& old(self).connection_state is Connected ==> (r->Ok_0 matches
                    SubscribeOutcome::Sent(f) && frame_matches_sub(
                        f,
                        MessageType::Subscribe,
                        final(self).subscriptions@.last(),
                        now_ms,
                    ))
                    &&& !(old(self).connection_state is Connected) ==> r->Ok_0 is Deferred
                }
                &&& final(self).connection_state == old(self).connection_state
                &&& final(self).message_buffer@ == old(self).message_buffer@
                &&& final(self).message_deduplication_cache@ == old(self).message_deduplication_cache@
                &&& final(self).message_sequence_tracker@ == old(self).message_sequence_tracker@
                &&& final(self).endpoints@ == old(self).endpoints@
                &&& *final(self) == (WebSocketService {
                    subscriptions: final(self).subscriptions,
                    subscription_timestamps: final(self).subscription_timestamps,
                    connection_health: final(self).connection_health,
                    ..*old(self)
                })
            }),
    {
        self.evict_stale_stamps(now_ms);
        if self.subscription_timestamps.len() >= self.subscription_rate_limit as usize {
            return Err(SubscribeError::RateLimitExceeded);
        }
        if self.subscriptions.len() >= self.max_subscriptions_per_connection {
            return Err(SubscribeError::TooManySubscriptions);
        }
        if self.find_subscription(symbol.as_str()).is_some() {
            return Err(SubscribeError::AlreadySubscribed);
        }
        let subscription = match WebSocketSubscription::new(symbol, message_types, now_ms) {
            Ok(s) => s,
            Err(ValidationError::EmptySymbol) => {
                return Err(SubscribeError::EmptySymbol);
            },
            Err(_) => {
                return Err(SubscribeError::NoMessageTypes);
            },
        };
        let connected = self.connection_state.can_send_messages();
        let frame_sub = if connected {
            Some(duplicate_subscription(&subscription))
        } else {
            None
        };
        self.subscriptions.push(subscription);
        self.subscription_timestamps.push(now_ms);
        match frame_sub {
            Some(sub) => {
                let sym = sub.symbol.clone();
                let frame = WebSocketMessage {
                    message_type: MessageType::Subscribe,
                    symbol: Some(sym),
                    payload: MessagePayload::Subscription(sub),
                    timestamp_ms: now_ms,
                    sequence: None,
                };
                self.connection_health.record_message_sent(now_ms);
                Ok(SubscribeOutcome::Sent(frame))
            },
            None => Ok(SubscribeOutcome::Deferred),
        }
    }

    /// Remove the subscription for a symbol, if any; while connected the
    /// matching unsubscribe frame is handed back for transmission.
    pub fn unsubscribe_from_symbol(&mut self, symbol: &str, now_ms: u64) -> (r: (
        bool,
        Option<WebSocketMessage>,
    ))
        requires
            old(self).wf(),
        ensures
            final(self).wf(),
            r.0 == has_sub(old(self).subscriptions@, symbol@),
            !r.0 ==> *final(self) == *old(self) && r.1 is None,
            r.0 ==> !has_sub(final(self).subscriptions@, symbol@) && final(self).subscriptions@.len() == old(self).subscriptions@.len() - 1,
            r.0 ==> exists|i: int|
                0 <= i < old(self).subscriptions@.len() && old(self).subscriptions@[
                    i].symbol@ == symbol@ && final(self).subscriptions@ == old(self).subscriptions@.remove(i),
            r.1 matches Some(f) ==> old(self).connection_state is Connected && exists|i: int|
                0 <= i < old(self).subscriptions@.len() && #[trigger] old(self).subscriptions@[
                    i].symbol@ == symbol@ && frame_matches_sub(
                    f,
                    MessageType::Unsubscribe,
                    old(self).subscriptions@[i],
                    now_ms,
                ),
            r.1 is Some <==> r.0 && old(self).connection_state is Connected,
            *final(self) == (WebSocketService {
                subscriptions: final(self).subscriptions,
                connection_health: final(self).connection_health,
                ..*old(self)
            }),
    {
        let idx = match self.find_subscription(symbol) {
            Some(i) => i,
            None => {
                return (false, None);
            },
        };
        let removed = self.subscriptions.remove(idx);
        proof {
            assert forall|k: int|
                0 <= k < self.subscriptions@.len() implies #[trigger] self.subscriptions@[
                k].symbol@ != symbol@ by {
                if k < idx {
                    assert(old(self).subscriptions@[k].symbol@ != old(self).subscriptions@[
                        idx as int].symbol@);
                } else {
                    assert(self.subscriptions@[k] == old(self).subscriptions@[k + 1]);
                }
            }
        }
        if self.connection_state.can_send_messages() {
            let sym = removed.symbol.clone();
            let frame = WebSocketMessage {
                message_type: MessageType::Unsubscribe,
                symbol: Some(sym),
                payload: MessagePayload::Subscription(removed),
                timestamp_ms: now_ms,
                sequence: None,
            };
            self.connection_health.record_message_sent(now_ms);
            (true, Some(frame))
        } else {
            (true, None)
        }
    }

    /// Replace the message kinds a subscription asks for; while
    /// connected the refreshed subscribe frame is handed back.
    pub fn update_subscription(
        &mut self,
        symbol: &str,
        message_types: Vec<MessageType>,
        now_ms: u64,
    ) -> (r: Result<Option<WebSocketMessage>, SubscribeError>)
        requires
            old(self).wf(),
        ensures
            final(self).wf(),
            r is Err <==> !has_sub(old(self).subscriptions@, symbol@),
            r is Err ==> r == Err::<Option<WebSocketMessage>, SubscribeError>(
                SubscribeError::NotSubscribed,
            ) && *final(self) == *old(self),
            r is Ok ==> exists|i: int|
                0 <= i < old(self).subscriptions@.len() && old(self).subscriptions@[
                    i].symbol@ == symbol@ && final(self).subscriptions@ == old(self).subscriptions@.update(
                    i,
                    #[trigger] final(self).subscriptions@[i],
                ) && final(self).subscriptions@[i].message_types@ == message_types@ && final(self).subscriptions@[i].symbol@ == old(self).subscriptions@[i].symbol@ && final(self).subscriptions@[i].is_active == old(self).subscriptions@[i].is_active,
            r matches Ok(frame) ==> (frame is Some <==> old(self).connection_state is Connected),
            r matches Ok(frame) ==> (frame matches Some(f) ==> exists|i: int|
                0 <= i < final(self).subscriptions@.len() && #[trigger] final(self).subscriptions@[
                    i].symbol@ == symbol@ && frame_matches_sub(
                    f,
                    MessageType::Subscribe,
                    final(self).subscriptions@[i],
                    now_ms,
                )),
            *final(self) == (WebSocketService {
                subscriptions: final(self).subscriptions,
                connection_health: final(self).connection_health,
                ..*old(self)
            }),
    {
        let idx = match self.find_subscription(symbol) {
            Some(i) => i,
            None => {
                return Err(SubscribeError::NotSubscribed);
            },
        };
        let mut sub = self.subscriptions.remove(idx);
        sub.message_types = message_types;
        let frame = if self.connection_state.can_send_messages() {
            let copy = duplicate_subscription(&sub);
            let sym = copy.symbol.clone();
            self.connection_health.record_message_sent(now_ms);
            Some(
                WebSocketMessage {
                    message_type: MessageType::Subscribe,
                    symbol: Some(sym),
                    payload: MessagePayload::Subscription(copy),
                    timestamp_ms: now_ms,
                    sequence: None,
                },
            )
        } else {
            None
        };
        self.subscriptions.insert(idx, sub);
        proof {
            assert(self.subscriptions@ =~= old(self).subscriptions@.update(
                idx as int,
                self.subscriptions@[idx as int],
            ));
        }
        Ok(frame)
    }

    /// Deactivate a subscription without removing it; while connected
    /// the unsubscribe frame is handed back.
    pub fn pause_subscription(&mut self, symbol: &str, now_ms: u64) -> (r: Result<
        Option<WebSocketMessage>,
        SubscribeError,
    >)
        requires
            old(self).wf(),
        ensures
            final(self).wf(),
            r is Err <==> !has_sub(old(self).subscriptions@, symbol@),
            r is Err ==> r == Err::<Option<WebSocketMessage>, SubscribeError>(
                SubscribeError::NotSubscribed,
            ) && *final(self) == *old(self),
            r is Ok ==> exists|i: int|
                0 <= i < old(self).subscriptions@.len() && old(self).subscriptions@[
                    i].symbol@ == symbol@ && final(self).subscriptions@ == old(self).subscriptions@.update(
                    i,
                    #[trigger] final(self).subscriptions@[i],
                ) && !final(self).subscriptions@[i].is_active && sub_like_except_active(
                    final(self).subscriptions@[i],
                    old(self).subscriptions@[i],
                ),
            r matches Ok(frame) ==> (frame is Some <==> old(self).connection_state is Connected),
            r matches Ok(frame) ==> (frame matches Some(f) ==> exists|i: int|
                0 <= i < final(self).subscriptions@.len() && #[trigger] final(self).subscriptions@[
                    i].symbol@ == symbol@ && frame_matches_sub(
                    f,
                    MessageType::Unsubscribe,
                    final(self).subscriptions@[i],
                    now_ms,
                )),
            *final(self) == (WebSocketService {
                subscriptions: final(self).subscriptions,
                connection_health: final(self).connection_health,
                ..*old(self)
            }),
    {
        let idx = match self.find_subscription(symbol) {
            Some(i) => i,
            None => {
                return Err(SubscribeError::NotSubscribed);
            },
        };
        let mut sub = self.subscriptions.remove(idx);
        sub.is_active = false;
        let frame = if self.connection_state.can_send_messages() {
            let copy = duplicate_subscription(&sub);
            let sym = copy.symbol.clone();
            self.connection_health.record_message_sent(now_ms);
            Some(
                WebSocketMessage {
                    message_type: MessageType::Unsubscribe,
                    symbol: Some(sym),
                    payload: MessagePayload::Subscription(copy),
                    timestamp_ms: now_ms,
                    sequence: None,
                },
            )
        } else {
            None
        };
        self.subscriptions.insert(idx, sub);
        proof {
            assert(self.subscriptions@ =~= old(self).subscriptions@.update(
                idx as int,
                self.subscriptions@[idx as int],
            ));
        }
        Ok(frame)
    }

    /// Reactivate a paused subscription; while connected the subscribe
    /// frame is handed back.
    pub fn resume_subscription(&mut self, symbol: &str, now_ms: u64) -> (r: Result<
        Option<WebSocketMessage>,
        SubscribeError,
    >)
        requires
            old(self).wf(),
        ensures
            final(self).wf(),
            r is Err <==> !has_sub(old(self).subscriptions@, symbol@),
            r is Err ==> r == Err::<Option<WebSocketMessage>, SubscribeError>(
                SubscribeError::NotSubscribed,
            ) && *final(self) == *old(self),
            r is Ok ==> exists|i: int|
                0 <= i < old(self).subscriptions@.len() && old(self).subscriptions@[
                    i].symbol@ == symbol@ && final(self).subscriptions@ == old(self).subscriptions@.update(
                    i,
                    #[trigger] final(self).subscriptions@[i],
                ) && final(self).subscriptions@[i].is_active && sub_like_except_active(
                    final(self).subscriptions@[i],
                    old(self).subscriptions@[i],
                ),
            r matches Ok(frame) ==> (frame is Some <==> old(self).connection_state is Connected),
            r matches Ok(frame) ==> (frame matches Some(f) ==> exists|i: int|
                0 <= i < final(self).subscriptions@.len() && #[trigger] final(self).subscriptions@[
                    i].symbol@ == symbol@ && frame_matches_sub(
                    f,
                    MessageType::Subscribe,
                    final(self).subscriptions@[i],
                    now_ms,
                )),
            *final(self) == (WebSocketService {
                subscriptions: final(self).subscriptions,
                connection_health: final(self).connection_health,
                ..*old(self)
            }),
    {
        let idx = match self.find_subscription(symbol) {
            Some(i) => i,
            None => {
                return Err(SubscribeError::NotSubscribed);
            },
        };
        let mut sub = self.subscriptions.remove(idx);
        sub.is_active = true;
        let frame = if self.connection_state.can_send_messages() {
            let copy = duplicate_subscription(&sub);
            let sym = copy.symbol.clone();
            self.connection_health.record_message_sent(now_ms);
            Some(
                WebSocketMessage {
                    message_type: MessageType::Subscribe,
                    symbol: Some(sym),
                    payload: MessagePayload::Subscription(copy),
                    timestamp_ms: now_ms,
                    sequence: None,
                },
            )
        } else {
            None
        };
        self.subscriptions.insert(idx, sub);
        proof {
            assert(self.subscriptions@ =~= old(self).subscriptions@.update(
                idx as int,
                self.subscriptions@[idx as int],
            ));
        }
        Ok(frame)
    }

    /// Subscribe to several symbols; the batch stops at the first
    /// rate-limit refusal. Returns the symbols subscribed and the frames
    /// to transmit.
    /// Subscribe to several symbols, each attempted in order under the
    /// single-symbol rules; the batch stops at the first rate-limit
    /// refusal. The first result lists exactly the symbols newly
    /// subscribed, in order; the second holds their subscribe frames
    /// when connected.
    /// Subscribe to several symbols, each attempted in order under the
    /// single-symbol rules; the batch stops at the first rate-limit
    /// refusal. The first result lists exactly the symbols newly
    /// subscribed, in order; the second holds their subscribe frames
    /// when connected.
    pub fn subscribe_to_symbols(
        &mut self,
        symbols: Vec<(String, Vec<MessageType>)>,
        now_ms: u64,
    ) -> (r: (Vec<String>, Vec<WebSocketMessage>))
        requires
            old(self).wf(),
        ensures
            final(self).wf(),
            r.0@.len() <= symbols@.len(),
            r.0@.len() + old(self).subscriptions@.len() == final(self).subscriptions@.len(),
            final(self).subscriptions@.subrange(0, old(self).subscriptions@.len() as int) == old(
                self,
            ).subscriptions@,
            forall|k: int|
                0 <= k < r.0@.len() ==> {
                    &&& (#[trigger] final(self).subscriptions@[old(self).subscriptions@.len()
                        + k]).symbol@ == r.0@[k]@
                    &&& final(self).subscriptions@[old(self).subscriptions@.len() + k].is_active
                    &&& final(self).subscriptions@[old(self).subscriptions@.len()
                        + k].subscribed_at_ms == now_ms
                    &&& exists|j: int|
                        0 <= j < symbols@.len() && (#[trigger] symbols@[j].0)@ == r.0@[k]@
                            && final(self).subscriptions@[old(self).subscriptions@.len()
                            + k].message_types@ == symbols@[j].1@
                },
            old(self).connection_state is Connected ==> r.1@.len() == r.0@.len() && forall|k: int|
                0 <= k < r.1@.len() ==> frame_matches_sub(
                    #[trigger] r.1@[k],
                    MessageType::Subscribe,
                    final(self).subscriptions@[old(self).subscriptions@.len() + k],
                    now_ms,
                ),
            !(old(self).connection_state is Connected) ==> r.1@.len() == 0,
            *final(self) == (WebSocketService {
                subscriptions: final(self).subscriptions,
                subscription_timestamps: final(self).subscription_timestamps,
                connection_health: final(self).connection_health,
                ..*old(self)
            }),
            ({
                let fresh0 = fresh_stamps(
                    old(self).subscription_timestamps@,
                    now_ms,
                    old(self).subscription_window_ms,
                );
                &&& fresh0.len() >= old(self).subscription_rate_limit ==> r.0@.len() == 0
                    && final(self).subscriptions@ == old(self).subscriptions@
                &&& (symbols@.len() > 0 && fresh0.len() < old(self).subscription_rate_limit && old(
                    self,
                ).subscriptions@.len() < old(self).max_subscriptions_per_connection && !has_sub(
                    old(self).subscriptions@,
                    symbols@[0].0@,
                ) && symbols@[0].0@.len() > 0 && symbols@[0].1@.len() > 0) ==> r.0@.len() >= 1
                    && r.0@[0]@ == symbols@[0].0@
            }),
    {
        let ghost pre = *old(self);
        let ghost base = old(self).subscriptions@.len() as int;
        let mut subscribed: Vec<String> = Vec::new();
        let mut frames: Vec<WebSocketMessage> = Vec::new();
        let mut i: usize = 0;
        let mut stopped = false;
        while i < symbols.len() && !stopped
            invariant
                self.wf(),
                pre == *old(self),
                base == pre.subscriptions@.len(),
                i <= symbols@.len(),
                subscribed@.len() <= i,
                !stopped && i == 0 ==> *self == pre,
                i == 0 ==> subscribed@.len() == 0 && frames@.len() == 0,
                subscribed@.len() + base == self.subscriptions@.len(),
                self.subscriptions@.subrange(0, base) == pre.subscriptions@,
                forall|k: int|
                    0 <= k < subscribed@.len() ==> {
                        &&& (#[trigger] self.subscriptions@[base + k]).symbol@ == subscribed@[k]@
                        &&& self.subscriptions@[base + k].is_active
                        &&& self.subscriptions@[base + k].subscribed_at_ms == now_ms
                        &&& exists|j: int|
                            0 <= j < symbols@.len() && (#[trigger] symbols@[j].0)@
                                == subscribed@[k]@ && self.subscriptions@[base + k].message_types@
                                == symbols@[j].1@
                    },
                pre.connection_state is Connected ==> frames@.len() == subscribed@.len() && forall|
                    k: int,
                |
                    0 <= k < frames@.len() ==> frame_matches_sub(
                        #[trigger] frames@[k],
                        MessageType::Subscribe,
                        self.subscriptions@[base + k],
                        now_ms,
                    ),
                !(pre.connection_state is Connected) ==> frames@.len() == 0,
                *self == (WebSocketService {
                    subscriptions: self.subscriptions,
                    subscription_timestamps: self.subscription_timestamps,
                    connection_health: self.connection_health,
                    ..pre
                }),
                ({
                    let fresh0 = fresh_stamps(
                        pre.subscription_timestamps@,
                        now_ms,
                        pre.subscription_window_ms,
                    );
                    &&& fresh0.len() >= pre.subscription_rate_limit ==> i == 0
                    &&& ((i > 0 || stopped) && fresh0.len() < pre.subscription_rate_limit
                        && pre.subscriptions@.len() < pre.max_subscriptions_per_connection
                        && !has_sub(pre.subscriptions@, symbols@[0].0@) && symbols@[0].0@.len() > 0
                        && symbols@[0].1@.len() > 0) ==> subscribed@.len() >= 1 && subscribed@[0]@
                        == symbols@[0].0@
                }),
            decreases 2 * (symbols@.len() - i) + (if stopped {
                0int
            } else {
                1
            }),
        {
            let (symbol, message_types) = duplicate_request(&symbols[i]);
            let ghost sym_view = symbol@;
            let ghost kinds_view = message_types@;
            let ghost before = *self;
            let ghost len0 = subscribed@.len() as int;
            match self.subscribe_to_symbol(symbol, message_types, now_ms) {
                Ok(outcome) => {
                    let (again, _) = duplicate_request(&symbols[i]);
                    subscribed.push(again);
                    proof {
                        let sl = self.subscriptions@;
                        assert(sl.subrange(0, base) =~= before.subscriptions@.subrange(0, base));
                        assert(sl.last().symbol@ == sym_view);
                        assert(symbols@[i as int].0@ == sym_view && symbols@[i as int].1@
                            == kinds_view);
                        assert forall|k: int| 0 <= k < subscribed@.len() implies {
                            &&& (#[trigger] sl[base + k]).symbol@ == subscribed@[k]@
                            &&& sl[base + k].is_active
                            &&& sl[base + k].subscribed_at_ms == now_ms
                            &&& exists|j: int|
                                0 <= j < symbols@.len() && (#[trigger] symbols@[j].0)@
                                    == subscribed@[k]@ && sl[base + k].message_types@ == symbols@[
                                    j].1@
                        } by {
                            if k < len0 {
                                assert(sl[base + k] == before.subscriptions@[base + k]);
                            } else {
                                assert(sl[base + k] == sl.last());
                                assert((symbols@[i as int].0)@ == subscribed@[k]@ && sl[base
                                    + k].message_types@ == symbols@[i as int].1@);
                            }
                        }
                    }
                    match outcome {
                        SubscribeOutcome::Sent(f) => {
                            frames.push(f);
                            proof {
                                let sl = self.subscriptions@;
                                if pre.connection_state is Connected {
                                    assert forall|k: int| 0 <= k < frames@.len() implies
                                        frame_matches_sub(
                                        #[trigger] frames@[k],
                                        MessageType::Subscribe,
                                        sl[base + k],
                                        now_ms,
                                    ) by {
                                        if k < len0 {
                                            assert(sl[base + k] == before.subscriptions@[base
                                                + k]);
                                        } else {
                                            assert(sl[base + k] == sl.last());
                                        }
                                    }
                                }
                            }
                        },
                        SubscribeOutcome::Deferred => {},
                    }
                    i = i + 1;
                },
                Err(e) => {
                    if matches!(e, SubscribeError::RateLimitExceeded) {
                        stopped = true;
                    } else {
                        i = i + 1;
                    }
                },
            }
        }
        proof {
            assert(self.subscriptions@.subrange(0, base) =~= old(self).subscriptions@.subrange(
                0,
                base,
            ));
            if subscribed@.len() == 0 {
                assert(self.subscriptions@ =~= pre.subscriptions@);
            }
        }
        (subscribed, frames)
    }

    /// Unsubscribe from several symbols; afterwards none of them has a
    /// subscription.
    /// Unsubscribe from several symbols. Afterwards none of them has a
    /// subscription, and every subscription whose symbol is not named
    /// survives; while connected, one unsubscribe frame per removal is
    /// handed back.
    pub fn unsubscribe_from_symbols(&mut self, symbols: &Vec<String>, now_ms: u64) -> (frames: Vec<
        WebSocketMessage,
    >)
        requires
            old(self).wf(),
        ensures
            final(self).wf(),
            forall|k: int|
                0 <= k < symbols@.len() ==> !has_sub(
                    final(self).subscriptions@,
                    #[trigger] symbols@[k]@,
                ),
            forall|k: int|
                0 <= k < old(self).subscriptions@.len() && !name_listed(
                    symbols@,
                    (#[trigger] old(self).subscriptions@[k]).symbol@,
                ) ==> has_sub(final(self).subscriptions@, old(self).subscriptions@[k].symbol@),
            old(self).connection_state is Connected ==> frames@.len() + final(self).subscriptions@.len() == old(self).subscriptions@.len(),
            !(old(self).connection_state is Connected) ==> frames@.len() == 0,
            forall|k: int|
                0 <= k < frames@.len() ==> (#[trigger] frames@[k]).message_type is Unsubscribe
                    && (frames@[k].symbol matches Some(s) && name_listed(symbols@, s@))
                    && frames@[k].timestamp_ms == now_ms,
            *final(self) == (WebSocketService {
                subscriptions: final(self).subscriptions,
                connection_health: final(self).connection_health,
                ..*old(self)
            }),
    {
        let ghost pre = *old(self);
        let mut frames: Vec<WebSocketMessage> = Vec::new();
        let mut i: usize = 0;
        while i < symbols.len()
            invariant
                self.wf(),
                pre == *old(self),
                i <= symbols@.len(),
                forall|k: int|
                    0 <= k < i ==> !has_sub(self.subscriptions@, #[trigger] symbols@[k]@),
                forall|k: int|
                    0 <= k < pre.subscriptions@.len() && !name_listed(
                        symbols@,
                        (#[trigger] pre.subscriptions@[k]).symbol@,
                    ) ==> has_sub(self.subscriptions@, pre.subscriptions@[k].symbol@),
                pre.connection_state is Connected ==> frames@.len() + self.subscriptions@.len()
                    == pre.subscriptions@.len(),
                !(pre.connection_state is Connected) ==> frames@.len() == 0
                    && self.subscriptions@.len() <= pre.subscriptions@.len(),
                forall|k: int|
                    0 <= k < frames@.len() ==> (#[trigger] frames@[k]).message_type is Unsubscribe
                        && (frames@[k].symbol matches Some(s) && name_listed(symbols@, s@))
                        && frames@[k].timestamp_ms == now_ms,
                *self == (WebSocketService {
                    subscriptions: self.subscriptions,
                    connection_health: self.connection_health,
                    ..pre
                }),
            decreases symbols@.len() - i,
        {
            let ghost before = self.subscriptions@;
            let (removed, frame) = self.unsubscribe_from_symbol(symbols[i].as_str(), now_ms);
            proof {
                assert(name_listed(symbols@, symbols@[i as int]@));
            }
            if let Some(f) = frame {
                frames.push(f);
            }
            proof {
                assert forall|k: int| 0 <= k < i + 1 implies !has_sub(
                    self.subscriptions@,
                    #[trigger] symbols@[k]@,
                ) by {
                    if k < i {
                        if removed {
                            let j = choose|j: int|
                                0 <= j < before.len() && before[j].symbol@ == symbols@[
                                    i as int]@ && self.subscriptions@ == before.remove(j);
                            lemma_remove_keeps_absence(before, j, symbols@[k]@);
                        }
                    }
                }
                assert forall|k: int|
                    0 <= k < pre.subscriptions@.len() && !name_listed(
                        symbols@,
                        (#[trigger] pre.subscriptions@[k]).symbol@,
                    ) implies has_sub(self.subscriptions@, pre.subscriptions@[k].symbol@) by {
                    if removed {
                        let j = choose|j: int|
                            0 <= j < before.len() && before[j].symbol@ == symbols@[i as int]@
                                && self.subscriptions@ == before.remove(j);
                        assert(before[j].symbol@ != pre.subscriptions@[k].symbol@);
                        lemma_remove_keeps_presence(
                            before,
                            j,
                            pre.subscriptions@[k].symbol@,
                        );
                    }
                }
            }
            i = i + 1;
        }
        frames
    }

    /// Remove every subscription; afterwards none is tracked. While
    /// connected, one unsubscribe frame per removed subscription is
    /// handed back, in stored order.
    pub fn unsubscribe_all(&mut self, now_ms: u64) -> (frames: Vec<WebSocketMessage>)
        requires
            old(self).wf(),
        ensures
            final(self).wf(),
            final(self).subscriptions@.len() == 0,
            old(self).connection_state is Connected ==> frames@.len() == old(
                self,
            ).subscriptions@.len() && forall|k: int|
                0 <= k < frames@.len() ==> frame_matches_sub(
                    #[trigger] frames@[k],
                    MessageType::Unsubscribe,
                    old(self).subscriptions@[k],
                    now_ms,
                ),
            !(old(self).connection_state is Connected) ==> frames@.len() == 0,
            *final(self) == (WebSocketService {
                subscriptions: final(self).subscriptions,
                connection_health: final(self).connection_health,
                ..*old(self)
            }),
    {
        let ghost pre = *old(self);
        let mut frames: Vec<WebSocketMessage> = Vec::new();
        while self.subscriptions.len() > 0
            invariant
                self.wf(),
                pre == *old(self),
                self.subscriptions@.len() <= pre.subscriptions@.len(),
                self.subscriptions@ =~= pre.subscriptions@.subrange(
                    pre.subscriptions@.len() - self.subscriptions@.len(),
                    pre.subscriptions@.len() as int,
                ),
                pre.connection_state is Connected ==> frames@.len() + self.subscriptions@.len()
                    == pre.subscriptions@.len() && forall|k: int|
                    0 <= k < frames@.len() ==> frame_matches_sub(
                        #[trigger] frames@[k],
                        MessageType::Unsubscribe,
                        pre.subscriptions@[k],
                        now_ms,
                    ),
                !(pre.connection_state is Connected) ==> frames@.len() == 0,
                *self == (WebSocketService {
                    subscriptions: self.subscriptions,
                    connection_health: self.connection_health,
                    ..pre
                }),
            decreases self.subscriptions@.len(),
        {
            let ghost done = pre.subscriptions@.len() - self.subscriptions@.len();
            let sub = self.subscriptions.remove(0);
            proof {
                assert(sub == pre.subscriptions@[done]);
                assert(self.subscriptions@ =~= pre.subscriptions@.subrange(
                    done + 1,
                    pre.subscriptions@.len() as int,
                ));
            }
            if self.connection_state.can_send_messages() {
                let sym = sub.symbol.clone();
                self.connection_health.record_message_sent(now_ms);
                frames.push(
                    WebSocketMessage {
                        message_type: MessageType::Unsubscribe,
                        symbol: Some(sym),
                        payload: MessagePayload::Subscription(sub),
                        timestamp_ms: now_ms,
                        sequence: None,
                    },
                );
            }
        }
        frames
    }
}

/// Subscription content equality apart from the active flag.
pub open spec fn sub_like_except_active(a: WebSocketSubscription, b: WebSocketSubscription) -> bool {
    &&& a.symbol@ == b.symbol@
    &&& a.message_types@ == b.message_types@
    &&& a.subscribed_at_ms == b.subscribed_at_ms
    &&& a.subscription_id@ == b.subscription_id@
}

impl WebSocketService {
    /// Whether the message's key was already seen within the window.
    fn is_duplicate_message(&self, message: &WebSocketMessage, now_ms: u64) -> (r: bool)
        ensures
            r == msg_is_dup(*self, *message, now_ms),
    {
        let sym = match &message.symbol {
            Some(s) => s,
            None => {
                return false;
            },
        };
        let mut i: usize = 0;
        while i < self.message_deduplication_cache.len()
            invariant
                i <= self.message_deduplication_cache@.len(),
                message.symbol matches Some(s) && s@ == sym@,
                forall|k: int|
                    0 <= k < i ==> !#[trigger] dedup_match(
                        self.message_deduplication_cache@[k],
                        sym@,
                        message.message_type,
                        message.timestamp_ms,
                        now_ms,
                        self.deduplication_window_ms,
                    ),
            decreases self.message_deduplication_cache@.len() - i,
        {
            let e = &self.message_deduplication_cache[i];
            if str_eq(e.symbol.as_str(), sym.as_str()) && e.message_type == message.message_type
                && e.msg_timestamp_ms == message.timestamp_ms && e.seen_at_ms <= now_ms && now_ms
                - e.seen_at_ms < self.deduplication_window_ms {
                proof {
                    let c = self.message_deduplication_cache@;
                    assert(dedup_match(
                        c[i as int],
                        sym@,
                        message.message_type,
                        message.timestamp_ms,
                        now_ms,
                        self.deduplication_window_ms,
                    ));
                }
                return true;
            }
            proof {
                assert(!dedup_match(
                    self.message_deduplication_cache@[i as int],
                    sym@,
                    message.message_type,
                    message.timestamp_ms,
                    now_ms,
                    self.deduplication_window_ms,
                ));
            }
            i = i + 1;
        }
        false
    }

    /// Remember the message's key and drop entries that left the window.
    fn update_deduplication_cache(&mut self, sym: &String, mt: MessageType, ts: u64, now_ms: u64)
        ensures
            final(self).message_deduplication_cache@.len() >= 1,
            final(self).message_deduplication_cache@.drop_last() == dedup_kept(
                old(self).message_deduplication_cache@,
                sym@,
                mt,
                ts,
                now_ms,
                old(self).deduplication_window_ms,
            ),
            ({
                let e = final(self).message_deduplication_cache@.last();
                e.symbol@ == sym@ && e.message_type == mt && e.msg_timestamp_ms == ts
                    && e.seen_at_ms == now_ms
            }),
            *final(self) == (WebSocketService {
                message_deduplication_cache: final(self).message_deduplication_cache,
                ..*old(self)
            }),
    {
        let ghost window = self.deduplication_window_ms;
        let mut kept: Vec<DedupEntry> = Vec::new();
        let mut i: usize = 0;
        while i < self.message_deduplication_cache.len()
            invariant
                i <= self.message_deduplication_cache@.len(),
                window == self.deduplication_window_ms,
                kept@ == dedup_kept(
                    self.message_deduplication_cache@.subrange(0, i as int),
                    sym@,
                    mt,
                    ts,
                    now_ms,
                    window,
                ),
            decreases self.message_deduplication_cache@.len() - i,
        {
            let e = &self.message_deduplication_cache[i];
            proof {
                reveal_with_fuel(Seq::filter, 2);
                let prefix = self.message_deduplication_cache@.subrange(0, i as int + 1);
                assert(prefix.drop_last() =~= self.message_deduplication_cache@.subrange(
                    0,
                    i as int,
                ));
                assert(prefix.last() == self.message_deduplication_cache@[i as int]);
            }
            let fresh = e.seen_at_ms <= now_ms && now_ms - e.seen_at_ms
                < self.deduplication_window_ms;
            let same_key = str_eq(e.symbol.as_str(), sym.as_str()) && e.message_type == mt
                && e.msg_timestamp_ms == ts;
            if fresh && !same_key {
                let copy = DedupEntry {
                    symbol: e.symbol.clone(),
                    message_type: e.message_type,
                    msg_timestamp_ms: e.msg_timestamp_ms,
                    seen_at_ms: e.seen_at_ms,
                };
                proof {
                    assert(copy == self.message_deduplication_cache@[i as int]);
                }
                kept.push(copy);
            }
            i = i + 1;
        }
        proof {
            assert(self.message_deduplication_cache@.subrange(
                0,
                self.message_deduplication_cache@.len() as int,
            ) =~= self.message_deduplication_cache@);
        }
        kept.push(
            DedupEntry {
                symbol: sym.clone(),
                message_type: mt,
                msg_timestamp_ms: ts,
                seen_at_ms: now_ms,
            },
        );
        self.message_deduplication_cache = kept;
    }

    /// Record the message's sequence number as the newest one seen for
    /// its symbol.
    fn update_sequence_tracker(&mut self, sym: &String, seq: u64)
        requires
            tracker_unique(old(self).message_sequence_tracker@),
        ensures
            tracker_unique(final(self).message_sequence_tracker@),
            final(self).message_sequence_tracker@.len() >= 1,
            final(self).message_sequence_tracker@.drop_last() == tracker_others(
                old(self).message_sequence_tracker@,
                sym@,
            ),
            final(self).message_sequence_tracker@.last().symbol@ == sym@,
            final(self).message_sequence_tracker@.last().last_sequence == seq,
            *final(self) == (WebSocketService {
                message_sequence_tracker: final(self).message_sequence_tracker,
                ..*old(self)
            }),
    {
        let mut kept: Vec<SequenceEntry> = Vec::new();
        let mut i: usize = 0;
        while i < self.message_sequence_tracker.len()
            invariant
                i <= self.message_sequence_tracker@.len(),
                kept@ == tracker_others(
                    self.message_sequence_tracker@.subrange(0, i as int),
                    sym@,
                ),
            decreases self.message_sequence_tracker@.len() - i,
        {
            let e = &self.message_sequence_tracker[i];
            proof {
                reveal_with_fuel(Seq::filter, 2);
                let prefix = self.message_sequence_tracker@.subrange(0, i as int + 1);
                assert(prefix.drop_last() =~= self.message_sequence_tracker@.subrange(0, i as int));
                assert(prefix.last() == self.message_sequence_tracker@[i as int]);
            }
            if !str_eq(e.symbol.as_str(), sym.as_str()) {
                let copy = SequenceEntry { symbol: e.symbol.clone(), last_sequence: e.last_sequence };
                proof {
                    assert(copy == self.message_sequence_tracker@[i as int]);
                }
                kept.push(copy);
            }
            i = i + 1;
        }
        proof {
            assert(self.message_sequence_tracker@.subrange(
                0,
                self.message_sequence_tracker@.len() as int,
            ) =~= self.message_sequence_tracker@);
        }
        proof {
            lemma_tracker_filter_unique(old(self).message_sequence_tracker@, sym@);
        }
        kept.push(SequenceEntry { symbol: sym.clone(), last_sequence: seq });
        proof {
            let t = kept@;
            let others = tracker_others(old(self).message_sequence_tracker@, sym@);
            assert(t.drop_last() =~= others);
            assert forall|a: int, b: int| 0 <= a < b < t.len() implies #[trigger] t[a].symbol@
                != #[trigger] t[b].symbol@ by {
                if b == t.len() - 1 {
                    assert(t[a] == others[a]);
                } else {
                    assert(t[a] == others[a] && t[b] == others[b]);
                }
            }
        }
        self.message_sequence_tracker = kept;
    }

    /// Whether the message respects the per-symbol sequence order.
    fn validate_message_order(&self, message: &WebSocketMessage) -> (r: bool)
        requires
            tracker_unique(self.message_sequence_tracker@),
        ensures
            r == order_ok(self.message_sequence_tracker@, *message),
    {
        let sym = match &message.symbol {
            Some(s) => s,
            None => {
                return true;
            },
        };
        let seq = match message.sequence {
            Some(q) => q,
            None => {
                return true;
            },
        };
        let mut i: usize = 0;
        while i < self.message_sequence_tracker.len()
            invariant
                i <= self.message_sequence_tracker@.len(),
                tracker_unique(self.message_sequence_tracker@),
                message.symbol matches Some(s) && s@ == sym@,
                message.sequence == Some(seq),
                forall|k: int|
                    0 <= k < i ==> #[trigger] self.message_sequence_tracker@[k].symbol@ != sym@,
            decreases self.message_sequence_tracker@.len() - i,
        {
            let e = &self.message_sequence_tracker[i];
            if str_eq(e.symbol.as_str(), sym.as_str()) {
                proof {
                    let t = self.message_sequence_tracker@;
                    assert(t[i as int].symbol@ == sym@);
                    assert(exists|k: int| 0 <= k < t.len() && #[trigger] t[k].symbol@ == sym@);
                    let w = choose|w: int| 0 <= w < t.len() && #[trigger] t[w].symbol@ == sym@;
                    if w < i as int {
                        assert(t[w].symbol@ != t[i as int].symbol@);
                    } else if w > i as int {
                        assert(t[i as int].symbol@ != t[w].symbol@);
                    }
                    assert(tracked_sequence(t, sym@) == Some(t[i as int].last_sequence));
                }
                return seq > e.last_sequence;
            }
            i = i + 1;
        }
        proof {
            assert(tracked_sequence(self.message_sequence_tracker@, sym@) is None);
        }
        true
    }

    /// Run one inbound data frame through the pipeline: heartbeats only
    /// refresh liveness; a key already seen within the deduplication
    /// window is dropped; a record that fails its data-quality rule is
    /// rejected; everything else is accepted, with its ordering
    /// violation observed (never enforced) and a wide day range flagged.
    /// Tables advance only for accepted messages.
    pub fn handle_message(&mut self, message: &WebSocketMessage, now_ms: u64) -> (r:
        MessageDisposition)
        requires
            old(self).wf(),
        ensures
            final(self).wf(),
            final(self).connection_health.last_message_received_ms == Some(now_ms),
            final(self).connection_health.messages_received_count as int == if old(
                self,
            ).connection_health.messages_received_count < u64::MAX {
                old(self).connection_health.messages_received_count + 1
            } else {
                old(self).connection_health.messages_received_count as int
            },
            !(message.message_type is Heartbeat) ==> final(self).connection_health
                == (ConnectionHealth {
                last_message_received_ms: Some(now_ms),
                messages_received_count: final(self).connection_health.messages_received_count,
                ..old(self).connection_health
            }),
            message.message_type is Heartbeat ==> final(self).connection_health
                == (ConnectionHealth {
                last_message_received_ms: Some(now_ms),
                messages_received_count: final(self).connection_health.messages_received_count,
                last_pong_received_ms: Some(now_ms),
                latest_latency_ms: final(self).connection_health.latest_latency_ms,
                ..old(self).connection_health
            }),
            message.message_type is Heartbeat ==> final(self).connection_health.latest_latency_ms
                == match old(self).connection_health.last_ping_sent_ms {
                Some(ping) => if ping <= now_ms {
                    Some((now_ms - ping) as u64)
                } else {
                    old(self).connection_health.latest_latency_ms
                },
                None => old(self).connection_health.latest_latency_ms,
            },
            r is Heartbeat <==> message.message_type is Heartbeat,
            r is Heartbeat ==> *final(self) == (WebSocketService {
                last_heartbeat_ms: Some(now_ms),
                connection_health: final(self).connection_health,
                ..*old(self)
            }),
            r is Duplicate <==> !(message.message_type is Heartbeat) && old(self).enable_deduplication && msg_is_dup(*old(self), *message, now_ms),
            r is Duplicate || r is Rejected ==> *final(self) == (WebSocketService {
                connection_health: final(self).connection_health,
                ..*old(self)
            }),
            r is Rejected <==> !(message.message_type is Heartbeat) && !(old(self).enable_deduplication && msg_is_dup(*old(self), *message, now_ms)) && old(self).data_quality_checks_enabled && !message_quality_ok(*message),
            r is Processed <==> !(message.message_type is Heartbeat) && !(old(self).enable_deduplication && msg_is_dup(*old(self), *message, now_ms)) && !(old(self).data_quality_checks_enabled && !message_quality_ok(*message)),
            r matches MessageDisposition::Processed { out_of_order, suspicious } ==> {
                &&& out_of_order == (old(self).enable_message_ordering && !order_ok(
                    old(self).message_sequence_tracker@,
                    *message,
                ))
                &&& suspicious == (old(self).data_quality_checks_enabled && message_suspicious(
                    *message,
                ))
                &&& *final(self) == (WebSocketService {
                    connection_health: final(self).connection_health,
                    message_deduplication_cache: final(self).message_deduplication_cache,
                    message_sequence_tracker: final(self).message_sequence_tracker,
                    ..*old(self)
                })
                &&& old(self).enable_deduplication && message.symbol is Some ==> {
                    &&& final(self).message_deduplication_cache@.len() >= 1
                    &&& final(self).message_deduplication_cache@.last().symbol@
                        == message.symbol->Some_0@
                    &&& final(self).message_deduplication_cache@.last().message_type
                        == message.message_type
                    &&& final(self).message_deduplication_cache@.last().msg_timestamp_ms
                        == message.timestamp_ms
                    &&& final(self).message_deduplication_cache@.last().seen_at_ms == now_ms
                    &&& final(self).message_deduplication_cache@.drop_last() == dedup_kept(
                        old(self).message_deduplication_cache@,
                        message.symbol->Some_0@,
                        message.message_type,
                        message.timestamp_ms,
                        now_ms,
                        old(self).deduplication_window_ms,
                    )
                }
                &&& !(old(self).enable_deduplication && message.symbol is Some)
                    ==> final(self).message_deduplication_cache@ == old(self).message_deduplication_cache@
                &&& !(old(self).enable_message_ordering && message.symbol is Some
                    && message.sequence is Some) ==> final(self).message_sequence_tracker@ == old(self).message_sequence_tracker@
                &&& old(self).enable_message_ordering && message.symbol is Some
                    && message.sequence is Some ==> {
                    &&& final(self).message_sequence_tracker@.len() >= 1
                    &&& final(self).message_sequence_tracker@.last().symbol@ == message.symbol->Some_0@
                    &&& final(self).message_sequence_tracker@.last().last_sequence
                        == message.sequence->Some_0
                    &&& final(self).message_sequence_tracker@.drop_last() == tracker_others(
                        old(self).message_sequence_tracker@,
                        message.symbol->Some_0@,
                    )
                }
            },
    {
        self.connection_health.record_message_received(now_ms);
        if matches!(message.message_type, MessageType::Heartbeat) {
            self.last_heartbeat_ms = Some(now_ms);
            self.connection_health.record_pong_received(now_ms);
            return MessageDisposition::Heartbeat;
        }
        if self.enable_deduplication && self.is_duplicate_message(message, now_ms) {
            return MessageDisposition::Duplicate;
        }
        let out_of_order = self.enable_message_ordering && !self.validate_message_order(message);
        if self.data_quality_checks_enabled && !validate_message_quality(message) {
            return MessageDisposition::Rejected;
        }
        let suspicious = self.data_quality_checks_enabled && message_is_suspicious(message);
        if self.enable_deduplication {
            let key = match &message.symbol {
                Some(s) => Some(s.clone()),
                None => None,
            };
            if let Some(sym) = key {
                self.update_deduplication_cache(
                    &sym,
                    message.message_type,
                    message.timestamp_ms,
                    now_ms,
                );
            }
        }
        if self.enable_message_ordering {
            if let (Some(sym), Some(seq)) = (&message.symbol, message.sequence) {
                let key = sym.clone();
                self.update_sequence_tracker(&key, seq);
            }
        }
        MessageDisposition::Processed { out_of_order, suspicious }
    }

    /// Forget the deduplication and ordering tables.
    pub fn clear_message_caches(&mut self)
        ensures
            final(self).message_sequence_tracker@.len() == 0,
            final(self).message_deduplication_cache@.len() == 0,
            *final(self) == (WebSocketService {
                message_sequence_tracker: final(self).message_sequence_tracker,
                message_deduplication_cache: final(self).message_deduplication_cache,
                ..*old(self)
            }),
    {
        self.message_sequence_tracker = Vec::new();
        self.message_deduplication_cache = Vec::new();
    }

    /// Switch the ordering check on or off.
    pub fn set_message_ordering(&mut self, enabled: bool)
        ensures
            *final(self) == (WebSocketService { enable_message_ordering: enabled, ..*old(self) }),
    {
        self.enable_message_ordering = enabled;
    }

    /// Switch deduplication on or off.
    pub fn set_deduplication(&mut self, enabled: bool)
        ensures
            *final(self) == (WebSocketService { enable_deduplication: enabled, ..*old(self) }),
    {
        self.enable_deduplication = enabled;
    }

    /// Switch the data-quality checks on or off.
    pub fn set_data_quality_checks(&mut self, enabled: bool)
        ensures
            *final(self) == (WebSocketService {
                data_quality_checks_enabled: enabled,
                ..*old(self)
            }),
    {
        self.data_quality_checks_enabled = enabled;
    }

    /// Configure the deduplication window.
    pub fn set_deduplication_window(&mut self, window_ms: u64)
        ensures
            *final(self) == (WebSocketService { deduplication_window_ms: window_ms, ..*old(self) }),
    {
        self.deduplication_window_ms = window_ms;
    }

    /// Switch automatic reconnection on or off.
    pub fn set_auto_reconnect(&mut self, enabled: bool)
        ensures
            *final(self) == (WebSocketService { enable_auto_reconnect: enabled, ..*old(self) }),
    {
        self.enable_auto_reconnect = enabled;
    }

    /// The current lifecycle state.
    pub fn get_connection_state(&self) -> (r: &ConnectionState)
        ensures
            r == self.connection_state,
    {
        &self.connection_state
    }

    /// The current health metrics.
    pub fn get_connection_health(&self) -> (r: &ConnectionHealth)
        ensures
            r == self.connection_health,
    {
        &self.connection_health
    }

    /// The endpoint pool, in priority order.
    pub fn get_endpoints(&self) -> (r: &Vec<WebSocketEndpoint>)
        ensures
            r@ == self.endpoints@,
    {
        &self.endpoints
    }

    /// The index of the endpoint in use.
    pub fn get_current_endpoint_index(&self) -> (r: usize)
        ensures
            r == self.current_endpoint_index,
    {
        self.current_endpoint_index
    }
}

/// Check the type-specific data-quality rule of a message.
fn validate_message_quality(message: &WebSocketMessage) -> (r: bool)
    ensures
        r == message_quality_ok(*message),
{
    match message.message_type {
        MessageType::Quote => {
            match &message.payload {
                MessagePayload::Quote(q) => !q.symbol.as_str().is_empty() && q.bid > 0 && q.ask > 0
                    && q.last_price > 0 && q.bid < q.ask,
                _ => false,
            }
        },
        MessageType::Trade => {
            match &message.payload {
                MessagePayload::Trade(t) => !t.symbol.as_str().is_empty()
                    && !t.trade_id.as_str().is_empty() && t.price > 0 && t.size > 0,
                _ => false,
            }
        },
        MessageType::OrderBook => {
            match &message.payload {
                MessagePayload::OrderBook(b) => !b.symbol.as_str().is_empty() && crate::messages::bids_sorted_desc(&b.bids) && crate::messages::asks_sorted_asc(&b.asks) && crate::messages::spread_ok(&b.bids, &b.asks),
                _ => false,
            }
        },
        _ => true,
    }
}

/// Whether a processed quote should be flagged for a wide day range.
fn message_is_suspicious(message: &WebSocketMessage) -> (r: bool)
    ensures
        r == message_suspicious(*message),
{
    match message.message_type {
        MessageType::Quote => {
            match &message.payload {
                MessagePayload::Quote(q) => {
                    if q.high >= q.low {
                        let range = q.high - q.low;
                        range > u64::MAX / 2 || 2 * range > q.last_price
                    } else {
                        false
                    }
                },
                _ => false,
            }
        },
        _ => false,
    }
}




/// Subscription idempotence: after a subscribe adds the subscription
/// for a symbol that had none, exactly one active subscription for that
/// symbol exists; by `subscribe_to_symbol`'s contract a second call for
/// the same symbol is refused as already subscribed and changes no
/// subscription, so one remains.
pub proof fn law_subscribe_idempotent(subs: Seq<WebSocketSubscription>, s: WebSocketSubscription)
    requires
        subs_unique(subs),
        !has_sub(subs, s.symbol@),
        s.is_active,
    ensures
        has_sub(subs.push(s), s.symbol@),
        active_count(subs.push(s), s.symbol@) == 1,
{
    let pred = |x: WebSocketSubscription| x.symbol@ == s.symbol@ && x.is_active;
    assert(subs.push(s)[subs.len() as int] == s);
    lemma_filter_none(subs, pred);
    reveal_with_fuel(Seq::filter, 2);
    assert(subs.push(s).drop_last() =~= subs);
    assert(subs.push(s).filter(pred) =~= subs.filter(pred).push(s));
}

/// Filtering a unique-by-symbol tracker keeps it unique, keeps only
/// other symbols, and invents no entries.
proof fn lemma_tracker_filter_unique(t: Seq<SequenceEntry>, sym: Seq<char>)
    requires
        tracker_unique(t),
    ensures
        tracker_unique(tracker_others(t, sym)),
        forall|i: int|
            0 <= i < tracker_others(t, sym).len() ==> exists|j: int|
                0 <= j < t.len() && #[trigger] tracker_others(t, sym)[i] == t[j],
    decreases t.len(),
{
    reveal_with_fuel(Seq::filter, 2);
    if t.len() > 0 {
        let dl = t.drop_last();
        assert(tracker_unique(dl));
        lemma_tracker_filter_unique(dl, sym);
        let sub = tracker_others(dl, sym);
        let out = tracker_others(t, sym);
        assert forall|i: int| 0 <= i < out.len() implies exists|j: int|
            0 <= j < t.len() && #[trigger] out[i] == t[j] by {
            if i < sub.len() {
                assert(out[i] == sub[i]);
                let j = choose|j: int| 0 <= j < dl.len() && #[trigger] sub[i] == dl[j];
                assert(out[i] == t[j]);
            } else {
                assert(out[i] == t[t.len() - 1]);
            }
        }
        assert forall|a: int, b: int| 0 <= a < b < out.len() implies #[trigger] out[a].symbol@
            != #[trigger] out[b].symbol@ by {
            if b < sub.len() {
                assert(out[a] == sub[a] && out[b] == sub[b]);
            } else {
                assert(out[a] == sub[a]);
                let j = choose|j: int| 0 <= j < dl.len() && #[trigger] sub[a] == dl[j];
                assert(out[b] == t[t.len() - 1]);
                assert(t[j].symbol@ != t[t.len() - 1].symbol@);
            }
        }
    }
}

/// No element matches, so the filtered sequence is empty.
proof fn lemma_filter_none<A>(s: Seq<A>, pred: spec_fn(A) -> bool)
    requires
        forall|i: int| 0 <= i < s.len() ==> !pred(#[trigger] s[i]),
    ensures
        s.filter(pred).len() == 0,
    decreases s.len(),
{
    reveal_with_fuel(Seq::filter, 2);
    if s.len() > 0 {
        lemma_filter_none(s.drop_last(), pred);
    }
}

/// Deduplication: once a message's key stands in the table, an
/// identical message arriving within the window is classified a
/// duplicate; by `handle_message`'s contract it is dropped and no state
/// but the health counters changes, so one processed update remains.
pub proof fn law_second_identical_is_duplicate(
    cache: Seq<DedupEntry>,
    now2_ms: u64,
    window_ms: u64,
)
    requires
        cache.len() > 0,
        cache.last().seen_at_ms <= now2_ms,
        now2_ms - cache.last().seen_at_ms < window_ms,
    ensures
        is_dup(
            cache,
            cache.last().symbol@,
            cache.last().message_type,
            cache.last().msg_timestamp_ms,
            now2_ms,
            window_ms,
        ),
{
    assert(dedup_match(
        cache[cache.len() - 1],
        cache.last().symbol@,
        cache.last().message_type,
        cache.last().msg_timestamp_ms,
        now2_ms,
        window_ms,
    ));
}

/// Whether a symbol appears in a list of names.
pub open spec fn name_listed(symbols: Seq<String>, sym: Seq<char>) -> bool {
    exists|j: int| 0 <= j < symbols.len() && (#[trigger] symbols[j])@ == sym
}

proof fn lemma_remove_keeps_presence(s: Seq<WebSocketSubscription>, i: int, sym: Seq<char>)
    requires
        0 <= i < s.len(),
        has_sub(s, sym),
        s[i].symbol@ != sym,
    ensures
        has_sub(s.remove(i), sym),
{
    let w = choose|w: int| 0 <= w < s.len() && #[trigger] s[w].symbol@ == sym;
    if w < i {
        assert(s.remove(i)[w] == s[w]);
        assert(s.remove(i)[w].symbol@ == sym);
    } else {
        assert(w != i);
        assert(s.remove(i)[w - 1] == s[w]);
        assert(s.remove(i)[w - 1].symbol@ == sym);
    }
}

proof fn lemma_remove_keeps_absence(s: Seq<WebSocketSubscription>, i: int, sym: Seq<char>)
    requires
        0 <= i < s.len(),
        !has_sub(s, sym),
    ensures
        !has_sub(s.remove(i), sym),
{
    assert forall|k: int| 0 <= k < s.remove(i).len() implies #[trigger] s.remove(i)[k].symbol@
        != sym by {
        if k < i {
            assert(s.remove(i)[k] == s[k]);
        } else {
            assert(s.remove(i)[k] == s[k + 1]);
        }
    }
}

/// A content-equal copy of one batch request.
fn duplicate_request(r: &(String, Vec<MessageType>)) -> (out: (String, Vec<MessageType>))
    ensures
        out.0@ == r.0@,
        out.1@ == r.1@,
{
    let (symbol, kinds) = r;
    let mut message_types: Vec<MessageType> = Vec::new();
    let mut i: usize = 0;
    while i < kinds.len()
        invariant
            i <= kinds@.len(),
            message_types@ == kinds@.subrange(0, i as int),
        decreases kinds@.len() - i,
    {
        proof {
            assert(kinds@.subrange(0, i as int + 1) =~= kinds@.subrange(0, i as int).push(
                kinds@[i as int],
            ));
        }
        message_types.push(kinds[i]);
        i = i + 1;
    }
    proof {
        assert(kinds@.subrange(0, kinds@.len() as int) =~= kinds@);
    }
    (symbol.clone(), message_types)
}

/// A content-equal copy of a subscription.
fn duplicate_subscription(s: &WebSocketSubscription) -> (r: WebSocketSubscription)
    ensures
        sub_like(r, *s),
{
    let mut message_types: Vec<MessageType> = Vec::new();
    let mut i: usize = 0;
    while i < s.message_types.len()
        invariant
            i <= s.message_types@.len(),
            message_types@ == s.message_types@.subrange(0, i as int),
        decreases s.message_types@.len() - i,
    {
        proof {
            assert(s.message_types@.subrange(0, i as int + 1) =~= s.message_types@.subrange(
                0,
                i as int,
            ).push(s.message_types@[i as int]));
        }
        message_types.push(s.message_types[i]);
        i = i + 1;
    }
    proof {
        assert(s.message_types@.subrange(0, s.message_types@.len() as int) =~= s.message_types@);
    }
    WebSocketSubscription {
        symbol: s.symbol.clone(),
        message_types,
        subscribed_at_ms: s.subscribed_at_ms,
        is_active: s.is_active,
        subscription_id: s.subscription_id.clone(),
    }
}

} // verus!
