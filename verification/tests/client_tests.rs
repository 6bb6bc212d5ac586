//! Tests of the streaming client: subscriptions and their rate limit,
//! the message pipeline, outbound buffering, and the reconnection and
//! failover state machine.

use stock_trading::backoff_delay;
use stock_trading::client::{
    ConnectionState, MessageDisposition, ReconnectDecision, SendOutcome, SubscribeError,
    SubscribeOutcome, WebSocketService,
};
use stock_trading::endpoint::{EndpointError, WebSocketEndpoint};
use stock_trading::health::ConnectionHealth;
use stock_trading::messages::{
    MessagePayload, MessageType, OrderBookUpdate, QuoteUpdate, TradeUpdate, ValidationError,
    WebSocketMessage, WebSocketSubscription,
};

fn quote(symbol: &str, bid: u64, ask: u64, last: u64) -> QuoteUpdate {
    QuoteUpdate {
        symbol: symbol.to_string(),
        bid,
        ask,
        bid_size: 10,
        ask_size: 12,
        last_price: last,
        last_size: 5,
        volume: 1000,
        timestamp_ms: 1000,
        change: 0,
        change_percent_bp: 0,
        high: last,
        low: last,
        open: last,
    }
}

fn quote_message(symbol: &str, q: QuoteUpdate, timestamp_ms: u64) -> WebSocketMessage {
    WebSocketMessage {
        message_type: MessageType::Quote,
        symbol: Some(symbol.to_string()),
        payload: MessagePayload::Quote(q),
        timestamp_ms,
        sequence: None,
    }
}

#[test]
fn test_endpoint_validation() {
    // the URL parser decides: an empty or malformed address is refused,
    // a well-formed one is accepted
    assert_eq!(
        WebSocketEndpoint::new(String::new(), 1).unwrap_err(),
        EndpointError::EmptyUrl
    );
    assert_eq!(
        WebSocketEndpoint::new("not a url".to_string(), 1).unwrap_err(),
        EndpointError::InvalidUrl
    );
    let e = WebSocketEndpoint::new("wss://feed.example.com/stream".to_string(), 7).unwrap();
    assert_eq!(e.priority, 7);
    assert!(e.is_active);
    assert_eq!(e.connection_failures, 0);
}

#[test]
fn test_endpoint_failure_cooldown() {
    let mut e = WebSocketEndpoint::new("wss://feed.example.com".to_string(), 1).unwrap();
    e.record_failure(100);
    assert_eq!(e.connection_failures, 1);
    assert!(e.is_active);
    // within the cooldown it should not be retried
    assert!(!e.should_retry(1000, 500));
    // after the cooldown it may
    assert!(e.should_retry(1000, 1200));
    e.record_failure(1200);
    e.record_failure(1300);
    // three failures reach the threshold: deactivated, never retried
    assert!(!e.is_active);
    assert!(!e.should_retry(0, 99999));
    e.record_success(2000);
    assert!(e.is_active);
    assert_eq!(e.connection_failures, 0);
}

#[test]
fn test_connection_health() {
    let mut h = ConnectionHealth::new();
    assert!(!h.is_healthy(1000, 500));
    h.record_message_received(100);
    assert!(h.is_healthy(1000, 500));
    assert!(!h.is_healthy(1000, 1100));
    h.record_ping_sent(200);
    h.record_pong_received(450);
    assert_eq!(h.latest_latency_ms, Some(250));
    h.mark_connected(0);
    h.update_uptime(800);
    assert_eq!(h.connection_uptime_ms, 800);
    h.reset();
    assert_eq!(h.messages_received_count, 0);
}

#[test]
fn test_subscribe_idempotent() {
    // subscribing twice leaves exactly one active subscription
    let mut client = WebSocketService::new();
    let first = client.subscribe_to_symbol("AAPL".to_string(), vec![MessageType::Quote], 0);
    assert!(first.is_ok());
    let second = client.subscribe_to_symbol("AAPL".to_string(), vec![MessageType::Quote], 1);
    assert_eq!(second.unwrap_err(), SubscribeError::AlreadySubscribed);
    let active = client
        .get_subscriptions()
        .iter()
        .filter(|s| s.symbol == "AAPL" && s.is_active)
        .count();
    assert_eq!(active, 1);
}

#[test]
fn test_subscription_rate_limit_and_ceiling() {
    let mut client = WebSocketService::new();
    client.set_rate_limit(2, 1000);
    assert!(client
        .subscribe_to_symbol("A".to_string(), vec![MessageType::Quote], 0)
        .is_ok());
    assert!(client
        .subscribe_to_symbol("B".to_string(), vec![MessageType::Quote], 10)
        .is_ok());
    assert_eq!(
        client
            .subscribe_to_symbol("C".to_string(), vec![MessageType::Quote], 20)
            .unwrap_err(),
        SubscribeError::RateLimitExceeded
    );
    // after the window passes, requests are admitted again
    assert!(client
        .subscribe_to_symbol("C".to_string(), vec![MessageType::Quote], 2000)
        .is_ok());

    let mut small = WebSocketService::new();
    small.set_max_subscriptions(1);
    assert!(small
        .subscribe_to_symbol("A".to_string(), vec![MessageType::Quote], 0)
        .is_ok());
    assert_eq!(
        small
            .subscribe_to_symbol("B".to_string(), vec![MessageType::Quote], 1)
            .unwrap_err(),
        SubscribeError::TooManySubscriptions
    );

    let mut c = WebSocketService::new();
    assert_eq!(
        c.subscribe_to_symbol(String::new(), vec![MessageType::Quote], 0)
            .unwrap_err(),
        SubscribeError::EmptySymbol
    );
    assert_eq!(
        c.subscribe_to_symbol("A".to_string(), Vec::new(), 1)
            .unwrap_err(),
        SubscribeError::NoMessageTypes
    );
}

#[test]
fn test_unsubscribe_pause_resume() {
    let mut client = WebSocketService::new();
    client
        .subscribe_to_symbol("AAPL".to_string(), vec![MessageType::Quote], 0)
        .unwrap();
    assert!(client.is_subscribed_to("AAPL"));

    assert!(client.pause_subscription("AAPL", 1).is_ok());
    assert!(!client.get_subscriptions()[0].is_active);
    assert!(client.resume_subscription("AAPL", 2).is_ok());
    assert!(client.get_subscriptions()[0].is_active);
    assert_eq!(
        client.pause_subscription("MSFT", 3).unwrap_err(),
        SubscribeError::NotSubscribed
    );

    let (removed, frame) = client.unsubscribe_from_symbol("AAPL", 4);
    assert!(removed);
    assert!(frame.is_none()); // not connected: nothing to transmit
    assert!(!client.is_subscribed_to("AAPL"));
    let (removed, _) = client.unsubscribe_from_symbol("AAPL", 5);
    assert!(!removed);
}

#[test]
fn test_wire_frames_while_connected() {
    let mut client = WebSocketService::new();
    client.connect("wss://feed.example.com/stream").unwrap();
    client.on_connect_success(0);
    client
        .subscribe_to_symbol("AAPL".to_string(), vec![MessageType::Quote], 1)
        .unwrap();

    // pausing sends the matching unsubscribe frame
    let frame = client.pause_subscription("AAPL", 2).unwrap().unwrap();
    assert!(matches!(frame.message_type, MessageType::Unsubscribe));
    assert_eq!(frame.symbol.as_deref(), Some("AAPL"));
    match &frame.payload {
        MessagePayload::Subscription(s) => assert!(!s.is_active),
        other => panic!("expected the subscription payload, got {:?}", other),
    }

    // resuming sends the matching subscribe frame
    let frame = client.resume_subscription("AAPL", 3).unwrap().unwrap();
    assert!(matches!(frame.message_type, MessageType::Subscribe));
    match &frame.payload {
        MessagePayload::Subscription(s) => assert!(s.is_active),
        other => panic!("expected the subscription payload, got {:?}", other),
    }

    // changing the kinds sends the refreshed subscribe frame
    let frame = client
        .update_subscription("AAPL", vec![MessageType::Trade], 4)
        .unwrap()
        .unwrap();
    assert!(matches!(frame.message_type, MessageType::Subscribe));
    match &frame.payload {
        MessagePayload::Subscription(s) => assert_eq!(s.message_types, vec![MessageType::Trade]),
        other => panic!("expected the subscription payload, got {:?}", other),
    }

    // removing sends the unsubscribe frame
    let (removed, frame) = client.unsubscribe_from_symbol("AAPL", 5);
    assert!(removed);
    assert!(matches!(
        frame.unwrap().message_type,
        MessageType::Unsubscribe
    ));
}

#[test]
fn test_unsubscribe_all_frames() {
    let mut client = WebSocketService::new();
    client.connect("wss://feed.example.com/stream").unwrap();
    client.on_connect_success(0);
    client
        .subscribe_to_symbol("AAPL".to_string(), vec![MessageType::Quote], 1)
        .unwrap();
    client
        .subscribe_to_symbol("MSFT".to_string(), vec![MessageType::Quote], 2)
        .unwrap();

    let frames = client.unsubscribe_all(3);
    // one unsubscribe frame per removed subscription, in stored order
    assert_eq!(frames.len(), 2);
    assert_eq!(frames[0].symbol.as_deref(), Some("AAPL"));
    assert_eq!(frames[1].symbol.as_deref(), Some("MSFT"));
    assert!(frames
        .iter()
        .all(|f| matches!(f.message_type, MessageType::Unsubscribe)));
    assert_eq!(client.get_subscription_count(), 0);
}

#[test]
fn test_batch_subscribe_frames_while_connected() {
    let mut client = WebSocketService::new();
    client.connect("wss://feed.example.com/stream").unwrap();
    client.on_connect_success(0);
    let (subscribed, frames) = client.subscribe_to_symbols(
        vec![
            ("AAPL".to_string(), vec![MessageType::Quote]),
            ("MSFT".to_string(), vec![MessageType::Trade]),
        ],
        1,
    );
    assert_eq!(subscribed, vec!["AAPL".to_string(), "MSFT".to_string()]);
    // one subscribe frame per newly subscribed symbol, aligned
    assert_eq!(frames.len(), 2);
    assert_eq!(frames[0].symbol.as_deref(), Some("AAPL"));
    assert_eq!(frames[1].symbol.as_deref(), Some("MSFT"));
}

#[test]
fn test_batch_unsubscribe_preserves_others() {
    let mut client = WebSocketService::new();
    client
        .subscribe_to_symbol("AAPL".to_string(), vec![MessageType::Quote], 0)
        .unwrap();
    client
        .subscribe_to_symbol("MSFT".to_string(), vec![MessageType::Quote], 1)
        .unwrap();
    client
        .subscribe_to_symbol("TSLA".to_string(), vec![MessageType::Quote], 2)
        .unwrap();
    client.unsubscribe_from_symbols(&vec!["MSFT".to_string()], 3);
    assert!(client.is_subscribed_to("AAPL"));
    assert!(!client.is_subscribed_to("MSFT"));
    assert!(client.is_subscribed_to("TSLA"));
}

#[test]
fn test_connect_failure_charges_endpoint() {
    let mut client = WebSocketService::new();
    client.connect("wss://primary.example.com").unwrap();
    // the pool gained the dialled address with fresh fields
    assert_eq!(client.get_endpoints().len(), 1);
    assert_eq!(client.get_endpoints()[0].priority, 100);
    assert!(client.get_endpoints()[0].is_active);
    assert_eq!(client.get_endpoints()[0].connection_failures, 0);

    client.on_connect_failure("connection refused".to_string(), 10);
    assert_eq!(client.get_endpoints()[0].connection_failures, 1);
    assert_eq!(
        client.get_endpoints()[0].last_connection_attempt_ms,
        Some(10)
    );
}

#[test]
fn test_update_subscription() {
    let mut client = WebSocketService::new();
    client
        .subscribe_to_symbol("AAPL".to_string(), vec![MessageType::Quote], 0)
        .unwrap();
    assert!(client
        .update_subscription("AAPL", vec![MessageType::Quote, MessageType::Trade], 1)
        .is_ok());
    assert!(client.get_subscriptions()[0].includes_message_type(&MessageType::Trade));
    assert_eq!(
        client
            .update_subscription("MSFT", vec![MessageType::Quote], 2)
            .unwrap_err(),
        SubscribeError::NotSubscribed
    );
}

#[test]
fn test_deduplication_window() {
    // two identical (symbol, kind, timestamp) messages within the
    // window: exactly one is processed, the second is dropped
    let mut client = WebSocketService::new();
    let msg = quote_message("AAPL", quote("AAPL", 15000, 15005, 15002), 1000);

    let first = client.handle_message(&msg, 2000);
    assert!(matches!(first, MessageDisposition::Processed { .. }));

    let second = client.handle_message(&msg, 3000);
    assert_eq!(second, MessageDisposition::Duplicate);

    // past the deduplication window the same key is processed again
    let third = client.handle_message(&msg, 8001);
    assert!(matches!(third, MessageDisposition::Processed { .. }));
}

#[test]
fn test_out_of_order_is_observed_not_enforced() {
    let mut client = WebSocketService::new();
    let mut m1 = quote_message("AAPL", quote("AAPL", 15000, 15005, 15002), 1000);
    m1.sequence = Some(10);
    let mut m2 = quote_message("AAPL", quote("AAPL", 15001, 15006, 15003), 1500);
    m2.sequence = Some(9);

    assert!(matches!(
        client.handle_message(&m1, 2000),
        MessageDisposition::Processed {
            out_of_order: false,
            ..
        }
    ));
    // the older sequence number is flagged but still processed
    assert!(matches!(
        client.handle_message(&m2, 2100),
        MessageDisposition::Processed {
            out_of_order: true,
            ..
        }
    ));
}

#[test]
fn test_quality_checks() {
    let mut client = WebSocketService::new();

    // a crossed quote is rejected
    let crossed = quote_message("AAPL", quote("AAPL", 15010, 15005, 15002), 1000);
    assert_eq!(client.handle_message(&crossed, 10), MessageDisposition::Rejected);

    // a wide day range is flagged as suspicious but processed
    let mut wide = quote("AAPL", 15000, 15005, 10000);
    wide.high = 16000;
    wide.low = 9000;
    let wide_msg = quote_message("AAPL", wide, 1001);
    assert!(matches!(
        client.handle_message(&wide_msg, 20),
        MessageDisposition::Processed {
            suspicious: true,
            ..
        }
    ));

    // a trade without an id is rejected
    let bad_trade = WebSocketMessage {
        message_type: MessageType::Trade,
        symbol: Some("AAPL".to_string()),
        payload: MessagePayload::Trade(TradeUpdate {
            symbol: "AAPL".to_string(),
            price: 15002,
            size: 10,
            side: stock_trading::messages::OrderSide::Buy,
            timestamp_ms: 1002,
            trade_id: String::new(),
            conditions: Vec::new(),
            venue: None,
        }),
        timestamp_ms: 1002,
        sequence: None,
    };
    assert_eq!(
        client.handle_message(&bad_trade, 30),
        MessageDisposition::Rejected
    );

    // heartbeats only refresh liveness
    let ping = WebSocketMessage {
        message_type: MessageType::Heartbeat,
        symbol: None,
        payload: MessagePayload::Empty,
        timestamp_ms: 1003,
        sequence: None,
    };
    assert_eq!(client.handle_message(&ping, 40), MessageDisposition::Heartbeat);
    assert_eq!(client.last_heartbeat_ms, Some(40));
}

#[test]
fn test_outbound_buffering_and_flush() {
    let mut client = WebSocketService::new();
    let ping = WebSocketMessage {
        message_type: MessageType::Heartbeat,
        symbol: None,
        payload: MessagePayload::Empty,
        timestamp_ms: 0,
        sequence: None,
    };
    // while disconnected, messages wait in the buffer
    assert!(matches!(
        client.send_message(ping.clone(), 1),
        SendOutcome::Buffered
    ));
    client.max_buffer_size = 1;
    assert!(matches!(
        client.send_message(ping.clone(), 2),
        SendOutcome::BufferFull
    ));

    client.connect("wss://feed.example.com/stream").unwrap();
    assert!(matches!(
        client.get_connection_state(),
        ConnectionState::Connecting
    ));
    let frames = client.on_connect_success(3);
    // the buffered message is flushed on connect, in order
    assert_eq!(frames.len(), 1);
    assert!(matches!(frames[0].message_type, MessageType::Heartbeat));
    assert!(matches!(
        client.get_connection_state(),
        ConnectionState::Connected
    ));

    // connected sends go straight out
    assert!(matches!(
        client.send_message(ping, 4),
        SendOutcome::Transmit(_)
    ));
}

#[test]
fn test_resubscription_order_on_connect() {
    let mut client = WebSocketService::new();
    client
        .subscribe_to_symbol("AAPL".to_string(), vec![MessageType::Quote], 0)
        .unwrap();
    client
        .subscribe_to_symbol("MSFT".to_string(), vec![MessageType::Trade], 100)
        .unwrap();
    client.pause_subscription("MSFT", 200).unwrap();
    client
        .subscribe_to_symbol("TSLA".to_string(), vec![MessageType::OrderBook], 300)
        .unwrap();

    client.connect("wss://feed.example.com/stream").unwrap();
    let frames = client.on_connect_success(400);
    // active subscriptions are re-sent once, in stored order; the
    // paused one is not
    let symbols: Vec<String> = frames
        .iter()
        .map(|f| f.symbol.clone().unwrap())
        .collect();
    assert_eq!(symbols, vec!["AAPL".to_string(), "TSLA".to_string()]);
    assert!(frames
        .iter()
        .all(|f| matches!(f.message_type, MessageType::Subscribe)));
}

#[test]
fn test_backoff_monotonic_and_capped() {
    // the computed delay never shrinks with more attempts and never
    // exceeds the ceiling
    let mut previous = 0u64;
    for attempts in 0..40u32 {
        let d = backoff_delay(1000, attempts, 60000);
        assert!(d >= previous);
        assert!(d <= 60000);
        previous = d;
    }
    assert_eq!(backoff_delay(1000, 0, 60000), 1000);
    assert_eq!(backoff_delay(1000, 3, 60000), 8000);
    assert_eq!(backoff_delay(1000, 10, 60000), 60000);
}

#[test]
fn test_failover_to_next_endpoint() {
    // repeated failures on the primary deactivate it; the state
    // machine then fails over to the next endpoint in priority order
    let mut client = WebSocketService::with_config(5, 1000, 30000);
    client
        .add_endpoint("wss://primary.example.com".to_string(), 100)
        .unwrap();
    client
        .add_endpoint("wss://backup.example.com".to_string(), 90)
        .unwrap();

    let mut saw_failover_to_backup = false;
    let mut now = 0u64;
    for _ in 0..10 {
        now += 100000;
        match client.on_connect_failure("connection refused".to_string(), now) {
            ReconnectDecision::Failover { url } => {
                if url == "wss://backup.example.com" {
                    saw_failover_to_backup = true;
                }
            }
            _ => {}
        }
    }
    assert!(!client.get_endpoints()[0].is_active);
    assert!(saw_failover_to_backup);
}

#[test]
fn test_reconnect_delay_grows() {
    let mut client = WebSocketService::with_config(5, 1000, 60000);
    client
        .add_endpoint("wss://primary.example.com".to_string(), 100)
        .unwrap();
    let mut delays = Vec::new();
    for i in 0..5 {
        match client.on_connect_failure("network unreachable".to_string(), i * 10) {
            ReconnectDecision::RetryAfter { delay_ms } => delays.push(delay_ms),
            other => panic!("expected a delayed retry, got {:?}", other),
        }
    }
    assert_eq!(delays, vec![2000, 4000, 8000, 16000, 32000]);
}

#[test]
fn test_unrecoverable_error_does_not_retry() {
    let mut client = WebSocketService::with_config(5, 1000, 30000);
    client
        .add_endpoint("wss://primary.example.com".to_string(), 100)
        .unwrap();
    // an authentication failure never retries the same endpoint; with
    // the primary on cooldown and no other endpoint, the client remains
    // in the error state
    client.connect("wss://primary.example.com").unwrap();
    let decision = client.on_connect_failure("unauthorized".to_string(), 10);
    assert!(matches!(decision, ReconnectDecision::Remain));
    assert!(client.get_connection_state().is_error());
}

#[test]
fn test_health_check_liveness() {
    let mut client = WebSocketService::new();
    client.connect("wss://feed.example.com/stream").unwrap();
    client.on_connect_success(0);
    let msg = quote_message("AAPL", quote("AAPL", 15000, 15005, 15002), 1000);
    client.handle_message(&msg, 1000);
    // traffic within the timeout: healthy
    assert!(client.health_check(2000).is_none());
    // nothing received within the timeout: the error path runs
    assert!(client.health_check(1000 + 90001).is_some());
}

#[test]
fn test_batch_subscribe_and_unsubscribe() {
    let mut client = WebSocketService::new();
    let (subscribed, frames) = client.subscribe_to_symbols(
        vec![
            ("AAPL".to_string(), vec![MessageType::Quote]),
            ("MSFT".to_string(), vec![MessageType::Quote]),
            ("AAPL".to_string(), vec![MessageType::Trade]),
        ],
        0,
    );
    assert_eq!(subscribed, vec!["AAPL".to_string(), "MSFT".to_string()]);
    assert!(frames.is_empty()); // not connected: deferred
    assert_eq!(client.get_subscription_count(), 2);

    let frames = client.unsubscribe_from_symbols(
        &vec!["AAPL".to_string(), "MSFT".to_string()],
        10,
    );
    assert!(frames.is_empty());
    assert_eq!(client.get_subscription_count(), 0);
}

#[test]
fn test_subscription_record() {
    let sub = WebSocketSubscription::new(
        "AAPL".to_string(),
        vec![MessageType::Quote, MessageType::Trade],
        123,
    )
    .unwrap();
    assert!(sub.is_active);
    assert_eq!(sub.subscribed_at_ms, 123);
    assert_eq!(sub.subscription_id, "AAPL_123");
    assert!(sub.includes_message_type(&MessageType::Quote));
    assert!(!sub.includes_message_type(&MessageType::OrderBook));

    assert_eq!(
        WebSocketSubscription::new(String::new(), vec![MessageType::Quote], 0).unwrap_err(),
        ValidationError::EmptySymbol
    );
    assert_eq!(
        WebSocketSubscription::new("AAPL".to_string(), Vec::new(), 0).unwrap_err(),
        ValidationError::NoMessageTypes
    );
}

#[test]
fn test_record_constructors() {
    assert_eq!(
        QuoteUpdate::new(String::new(), 1, 2, 1, 0).unwrap_err(),
        ValidationError::EmptySymbol
    );
    assert_eq!(
        QuoteUpdate::new("AAPL".to_string(), 0, 2, 1, 0).unwrap_err(),
        ValidationError::NonPositivePrice
    );
    assert_eq!(
        QuoteUpdate::new("AAPL".to_string(), 2, 2, 1, 0).unwrap_err(),
        ValidationError::InvalidSpread
    );
    let q = QuoteUpdate::new("AAPL".to_string(), 15000, 15005, 15002, 7).unwrap();
    assert_eq!(q.high, 15002);
    assert_eq!(q.low, 15002);
    assert_eq!(q.get_spread(), 5);

    assert_eq!(
        TradeUpdate::new(
            "AAPL".to_string(),
            15000,
            0,
            stock_trading::messages::OrderSide::Sell,
            "t1".to_string(),
            0
        )
        .unwrap_err(),
        ValidationError::ZeroSize
    );
    assert_eq!(
        TradeUpdate::new(
            "AAPL".to_string(),
            15000,
            5,
            stock_trading::messages::OrderSide::Sell,
            String::new(),
            0
        )
        .unwrap_err(),
        ValidationError::EmptyTradeId
    );
}

#[test]
fn test_sort_entries() {
    let mut update = OrderBookUpdate::new("AAPL".to_string(), 1, true, 0).unwrap();
    update.add_bid(9900, 3).unwrap();
    update.add_bid(10000, 5).unwrap();
    update.add_ask(10200, 4).unwrap();
    update.add_ask(10100, 2).unwrap();
    update.sort_entries();
    assert_eq!(update.bids[0].price, 10000);
    assert_eq!(update.bids[1].price, 9900);
    assert_eq!(update.asks[0].price, 10100);
    assert_eq!(update.asks[1].price, 10200);

    assert_eq!(
        update.add_bid(0, 5).unwrap_err(),
        ValidationError::NonPositivePrice
    );
    assert_eq!(update.add_ask(100, 0).unwrap_err(), ValidationError::ZeroSize);
}
