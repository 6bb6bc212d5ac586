//! Tests of the cache coordinator: snapshot freshness, book merges,
//! request deduplication, the retention sweep, and the end-to-end path
//! from an inbound quote to a served snapshot.

use stock_trading::cache::{
    BookError, CacheLookup, DataService, DataSource, DataUpdateOutcome, HistoryLookup, Candle,
    OrderBook, TimeFrame,
};
use stock_trading::client::{MessageDisposition, SubscribeOutcome, WebSocketService};
use stock_trading::messages::{
    MessagePayload, MessageType, OrderBookUpdate, QuoteUpdate, TradeUpdate, ValidationError,
    WebSocketMessage,
};
use stock_trading::policy::{ConnectionStatus, ErrorHandlingStrategy};

fn quote(symbol: &str, bid: u64, ask: u64, last: u64, ts: u64) -> QuoteUpdate {
    QuoteUpdate {
        symbol: symbol.to_string(),
        bid,
        ask,
        bid_size: 10,
        ask_size: 12,
        last_price: last,
        last_size: 5,
        volume: 1000,
        timestamp_ms: ts,
        change: 25,
        change_percent_bp: 17,
        high: last + 100,
        low: last.saturating_sub(100),
        open: last,
    }
}

fn quote_message(symbol: &str, q: QuoteUpdate, ts: u64, sequence: Option<u64>) -> WebSocketMessage {
    WebSocketMessage {
        message_type: MessageType::Quote,
        symbol: Some(symbol.to_string()),
        payload: MessagePayload::Quote(q),
        timestamp_ms: ts,
        sequence,
    }
}

#[test]
fn test_stream_to_snapshot() {
    // connect, subscribe, feed a quote, and read the snapshot back:
    // the served price comes from the fed quote and the entry is
    // tagged as socket-sourced
    let mut client = WebSocketService::new();
    client.connect("wss://feed.example.com/stream").unwrap();
    let _frames = client.on_connect_success(0);
    match client
        .subscribe_to_symbol("AAPL".to_string(), vec![MessageType::Quote], 1)
        .unwrap()
    {
        SubscribeOutcome::Sent(frame) => {
            assert!(matches!(frame.message_type, MessageType::Subscribe));
        }
        SubscribeOutcome::Deferred => panic!("connected: the frame should go out at once"),
    }

    let msg = quote_message("AAPL", quote("AAPL", 15000, 15005, 15002, 2), 2, Some(1));
    assert!(matches!(
        client.handle_message(&msg, 2),
        MessageDisposition::Processed { .. }
    ));

    let mut ds = DataService::new();
    assert_eq!(
        ds.handle_websocket_message(&msg, 3),
        DataUpdateOutcome::QuoteCached
    );

    match ds.get_market_data("AAPL", 4) {
        CacheLookup::Fresh(d) => {
            assert_eq!(d.current_price, 15002);
            assert_eq!(d.bid, Some(15000));
            assert_eq!(d.ask, Some(15005));
        }
        CacheLookup::NeedsFetch => panic!("the snapshot was just cached"),
    }
    assert_eq!(ds.get_cached_source("AAPL"), Some(DataSource::WebSocket));
}

#[test]
fn test_cache_freshness() {
    // two reads within the TTL, with no intervening update, return
    // identical snapshots and neither needs a fetch
    let mut ds = DataService::new();
    let q = quote("AAPL", 15000, 15005, 15002, 0);
    assert!(ds.process_quote_update(&q, 0).is_ok());

    let first = match ds.get_market_data("AAPL", 10) {
        CacheLookup::Fresh(d) => d,
        CacheLookup::NeedsFetch => panic!("entry is fresh"),
    };
    let second = match ds.get_market_data("AAPL", 50000) {
        CacheLookup::Fresh(d) => d,
        CacheLookup::NeedsFetch => panic!("entry is still fresh"),
    };
    assert_eq!(first, second);

    // past the TTL a fetch is needed
    assert!(matches!(
        ds.get_market_data("AAPL", 60001),
        CacheLookup::NeedsFetch
    ));
    // and an unknown symbol always needs one
    assert!(matches!(
        ds.get_market_data("MSFT", 10),
        CacheLookup::NeedsFetch
    ));
}

#[test]
fn test_snapshot_validation() {
    let mut ds = DataService::new();

    // a crossed quote is discarded, never cached
    let crossed = quote("AAPL", 15010, 15005, 15002, 0);
    assert_eq!(
        ds.process_quote_update(&crossed, 0).unwrap_err(),
        ValidationError::InvalidSpread
    );
    assert!(ds.get_cached_data("AAPL").is_none());

    // a backwards day range is discarded
    let mut bad_range = quote("AAPL", 15000, 15005, 15002, 0);
    bad_range.high = 100;
    bad_range.low = 200;
    assert_eq!(
        ds.process_quote_update(&bad_range, 0).unwrap_err(),
        ValidationError::DayRangeInvalid
    );

    // an empty symbol is discarded
    let mut unnamed = quote("X", 15000, 15005, 15002, 0);
    unnamed.symbol = String::new();
    assert_eq!(
        ds.process_quote_update(&unnamed, 0).unwrap_err(),
        ValidationError::EmptySymbol
    );

    // a sound quote enters the cache with the insert rules holding
    let good = quote("AAPL", 15000, 15005, 15002, 0);
    assert!(ds.process_quote_update(&good, 0).is_ok());
    let d = ds.get_cached_data("AAPL").unwrap();
    assert!(d.bid.unwrap() > 0);
    assert!(d.ask.unwrap() > 0);
    assert!(d.bid.unwrap() < d.ask.unwrap());
    assert!(d.day_high >= d.day_low);
}

#[test]
fn test_trade_updates_snapshot() {
    let mut ds = DataService::new();
    let q = quote("AAPL", 15000, 15005, 15002, 0);
    ds.process_quote_update(&q, 0).unwrap();

    let trade = TradeUpdate {
        symbol: "AAPL".to_string(),
        price: 15010,
        size: 7,
        side: stock_trading::messages::OrderSide::Buy,
        timestamp_ms: 5,
        trade_id: "t1".to_string(),
        conditions: Vec::new(),
        venue: None,
    };
    assert!(ds.process_trade_update(&trade, 6));
    let d = ds.get_cached_data("AAPL").unwrap();
    assert_eq!(d.current_price, 15010);
    assert_eq!(d.volume, 1007);

    let unknown = TradeUpdate {
        symbol: "MSFT".to_string(),
        ..trade
    };
    assert!(!ds.process_trade_update(&unknown, 7));
}

#[test]
fn test_order_book_snapshot_figures() {
    // a book snapshot with bids at 100.00 and 99.00 and asks at 101.00
    // and 102.00 (in hundredths) has a spread of 1.00 and a mid of
    // 100.50
    let mut ds = DataService::new();
    let mut update = OrderBookUpdate::new("AAPL".to_string(), 1, true, 0).unwrap();
    update.add_bid(10000, 5).unwrap();
    update.add_bid(9900, 3).unwrap();
    update.add_ask(10100, 2).unwrap();
    update.add_ask(10200, 4).unwrap();

    assert!(ds.process_order_book_update(&update, 0).is_ok());
    let book: &OrderBook = ds.get_order_book("AAPL", 1).unwrap();
    assert_eq!(book.spread, 100);
    assert_eq!(book.mid_price, 10050);
    assert_eq!(book.bids.len(), 2);
    assert_eq!(book.asks.len(), 2);

    // past the book TTL the cached book is not served
    assert!(ds.get_order_book("AAPL", 5001).is_none());
}

#[test]
fn test_order_book_merge() {
    let mut ds = DataService::new();
    let mut snapshot = OrderBookUpdate::new("AAPL".to_string(), 1, true, 0).unwrap();
    snapshot.add_bid(10000, 5).unwrap();
    snapshot.add_ask(10100, 2).unwrap();
    ds.process_order_book_update(&snapshot, 0).unwrap();

    // an incremental update merges, re-sorts and recomputes
    let mut delta = OrderBookUpdate::new("AAPL".to_string(), 2, false, 1).unwrap();
    delta.add_bid(10050, 4).unwrap();
    delta.add_ask(10090, 1).unwrap();
    assert!(ds.process_order_book_update(&delta, 1).is_ok());
    let book = ds.get_order_book("AAPL", 2).unwrap();
    assert_eq!(book.bids[0].price, 10050);
    assert_eq!(book.bids[1].price, 10000);
    assert_eq!(book.asks[0].price, 10090);
    assert_eq!(book.asks[1].price, 10100);
    assert_eq!(book.spread, 40);
    assert_eq!(book.sequence_number, 2);

    // a merge that would cross the book is discarded
    let mut crossing = OrderBookUpdate::new("AAPL".to_string(), 3, false, 2).unwrap();
    crossing.add_bid(10095, 1).unwrap();
    assert_eq!(
        ds.process_order_book_update(&crossing, 2).unwrap_err(),
        BookError::CrossedBook
    );
    // the cached book is unchanged
    assert_eq!(ds.get_order_book("AAPL", 3).unwrap().sequence_number, 2);

    // an unsorted snapshot is refused
    let mut unsorted = OrderBookUpdate::new("AAPL".to_string(), 4, true, 3).unwrap();
    unsorted.add_bid(9900, 3).unwrap();
    unsorted.add_bid(10000, 5).unwrap();
    assert_eq!(
        ds.process_order_book_update(&unsorted, 3).unwrap_err(),
        BookError::UnsortedSides
    );

    let mut unnamed = OrderBookUpdate::new("X".to_string(), 5, true, 4).unwrap();
    unnamed.symbol = String::new();
    assert_eq!(
        ds.process_order_book_update(&unnamed, 4).unwrap_err(),
        BookError::EmptySymbol
    );
}

#[test]
fn test_book_depth_bounded() {
    let mut ds = DataService::new();
    let mut snapshot = OrderBookUpdate::new("AAPL".to_string(), 1, true, 0).unwrap();
    for i in 0..25u64 {
        snapshot.add_bid(5000 - i * 10, 1).unwrap();
    }
    snapshot.add_ask(9000, 1).unwrap();
    ds.process_order_book_update(&snapshot, 0).unwrap();

    let mut delta = OrderBookUpdate::new("AAPL".to_string(), 2, false, 1).unwrap();
    delta.add_bid(5005, 2).unwrap();
    ds.process_order_book_update(&delta, 1).unwrap();
    let book = ds.get_order_book("AAPL", 2).unwrap();
    // merged books keep only the best twenty levels
    assert_eq!(book.bids.len(), 20);
    assert_eq!(book.bids[0].price, 5005);
}

#[test]
fn test_sequence_deduplication() {
    // a message whose sequence number does not advance past the
    // applied one is skipped
    let mut ds = DataService::new();
    let m5 = quote_message("AAPL", quote("AAPL", 15000, 15005, 15002, 0), 0, Some(5));
    assert_eq!(
        ds.handle_websocket_message(&m5, 0),
        DataUpdateOutcome::QuoteCached
    );
    assert_eq!(
        ds.handle_websocket_message(&m5, 1),
        DataUpdateOutcome::SkippedStale
    );
    let m4 = quote_message("AAPL", quote("AAPL", 15001, 15006, 15003, 1), 1, Some(4));
    assert_eq!(
        ds.handle_websocket_message(&m4, 2),
        DataUpdateOutcome::SkippedStale
    );
    let m6 = quote_message("AAPL", quote("AAPL", 15001, 15006, 15003, 2), 2, Some(6));
    assert_eq!(
        ds.handle_websocket_message(&m6, 3),
        DataUpdateOutcome::QuoteCached
    );
    // a kind the coordinator does not consume changes nothing
    let ping = WebSocketMessage {
        message_type: MessageType::Heartbeat,
        symbol: None,
        payload: MessagePayload::Empty,
        timestamp_ms: 4,
        sequence: None,
    };
    assert_eq!(
        ds.handle_websocket_message(&ping, 4),
        DataUpdateOutcome::Ignored
    );
}

#[test]
fn test_subscribe_idempotent_coordinator() {
    // subscribing twice is a no-op success; unsubscribing an unknown
    // symbol is a no-op success
    let mut ds = DataService::new();
    assert!(ds.subscribe_to_symbol("AAPL".to_string()));
    assert!(!ds.subscribe_to_symbol("AAPL".to_string()));
    assert!(ds.is_subscribed("AAPL"));

    assert!(ds.unsubscribe_from_symbol("AAPL"));
    assert!(!ds.unsubscribe_from_symbol("AAPL"));
    assert!(!ds.is_subscribed("AAPL"));
}

#[test]
fn test_cleanup_ttl_and_lru() {
    let mut ds = DataService::new();
    ds.process_quote_update(&quote("AAPL", 15000, 15005, 15002, 0), 0)
        .unwrap();
    ds.process_quote_update(&quote("MSFT", 20000, 20010, 20005, 0), 0)
        .unwrap();

    // both entries age out of the TTL
    ds.cleanup_stale_data(70000);
    assert!(ds.get_cached_data("AAPL").is_none());
    assert!(ds.get_cached_data("MSFT").is_none());

    // over the size limit, the least recently accessed entry leaves
    ds.process_quote_update(&quote("AAPL", 15000, 15005, 15002, 100), 100)
        .unwrap();
    ds.process_quote_update(&quote("MSFT", 20000, 20010, 20005, 100), 100)
        .unwrap();
    let _ = ds.get_market_data("AAPL", 150); // AAPL is now the most recently read
    ds.max_cache_size = 1;
    ds.cleanup_stale_data(200);
    assert!(ds.get_cached_data("AAPL").is_some());
    assert!(ds.get_cached_data("MSFT").is_none());
}

#[test]
fn test_cleanup_books_and_series() {
    let mut ds = DataService::new();
    let mut snapshot = OrderBookUpdate::new("AAPL".to_string(), 1, true, 0).unwrap();
    snapshot.add_bid(10000, 5).unwrap();
    snapshot.add_ask(10100, 2).unwrap();
    ds.process_order_book_update(&snapshot, 0).unwrap();

    let candles: Vec<Candle> = (0..1200u64)
        .map(|i| Candle {
            timestamp_ms: i,
            open: 100,
            high: 110,
            low: 90,
            close: 105,
            volume: 10,
        })
        .collect();
    ds.cache_historical_data("AAPL".to_string(), TimeFrame::OneDay, candles);

    ds.cleanup_stale_data(61000);
    // the book aged out of its one-minute retention
    assert!(ds.get_order_book("AAPL", 61000).is_none());
    // the series was trimmed to a thousand candles
    match ds.get_historical_data("AAPL", TimeFrame::OneDay, 1000) {
        HistoryLookup::Cached(v) => assert_eq!(v.len(), 1000),
        HistoryLookup::NeedsFetch => panic!("series is cached"),
    }
    assert!(matches!(
        ds.get_historical_data("AAPL", TimeFrame::OneDay, 1001),
        HistoryLookup::NeedsFetch
    ));
}

#[test]
fn test_historical_prefix() {
    let mut ds = DataService::new();
    let candles: Vec<Candle> = (0..10u64)
        .map(|i| Candle {
            timestamp_ms: i,
            open: 100 + i,
            high: 110 + i,
            low: 90 + i,
            close: 105 + i,
            volume: 10,
        })
        .collect();
    ds.cache_historical_data("AAPL".to_string(), TimeFrame::OneHour, candles);

    match ds.get_historical_data("AAPL", TimeFrame::OneHour, 4) {
        HistoryLookup::Cached(v) => {
            assert_eq!(v.len(), 4);
            assert_eq!(v[0].open, 100);
            assert_eq!(v[3].open, 103);
        }
        HistoryLookup::NeedsFetch => panic!("series is cached"),
    }
    // a different timeframe is a different series
    assert!(matches!(
        ds.get_historical_data("AAPL", TimeFrame::OneDay, 1),
        HistoryLookup::NeedsFetch
    ));
}

#[test]
fn test_cache_stats() {
    let mut ds = DataService::new();
    ds.process_quote_update(&quote("AAPL", 15000, 15005, 15002, 0), 0)
        .unwrap();
    ds.process_quote_update(&quote("MSFT", 20000, 20010, 20005, 0), 0)
        .unwrap();
    ds.get_market_data("AAPL", 1);
    ds.subscribe_to_symbol("AAPL".to_string());

    let stats = ds.get_cache_stats();
    assert_eq!(stats.total_entries, 2);
    assert_eq!(stats.websocket_entries, 2);
    assert_eq!(stats.mock_entries, 0);
    assert_eq!(stats.http_entries, 0);
    assert_eq!(stats.total_access_count, 3); // one insert each, one read
    assert_eq!(stats.subscribed_symbols, 1);
}

#[test]
fn test_mock_toggle_clears_caches() {
    let mut ds = DataService::new();
    ds.process_quote_update(&quote("AAPL", 15000, 15005, 15002, 0), 0)
        .unwrap();
    ds.set_use_mock_data(false);
    assert!(ds.get_cached_data("AAPL").is_none());
    assert!(!ds.use_mock_data);
}

#[test]
fn test_network_operation_failure_policy() {
    let mut ds = DataService::new();
    // a failed fetch: offline status and a retry with the server's figure
    let strategy = ds
        .after_network_operation(Some("connect timed out".to_string()), 10)
        .unwrap();
    match strategy {
        ErrorHandlingStrategy::RetryWithBackoff {
            delay_ms,
            max_attempts,
        } => {
            assert_eq!(delay_ms, 5000);
            assert_eq!(max_attempts, 3);
        }
        other => panic!("unexpected strategy {:?}", other),
    }
    assert!(matches!(
        ds.get_connection_status(),
        ConnectionStatus::Offline
    ));
    assert_eq!(ds.get_error_handler().rate_limiter.consecutive_failures, 1);

    // a success resets the streak and recovers the status
    assert!(ds.after_network_operation(None, 20).is_none());
    assert!(matches!(
        ds.get_connection_status(),
        ConnectionStatus::Online
    ));
    assert_eq!(ds.get_error_handler().rate_limiter.consecutive_failures, 0);
}

#[test]
fn test_read_bumps_access_record() {
    let mut ds = DataService::new();
    ds.process_quote_update(&quote("AAPL", 15000, 15005, 15002, 0), 0)
        .unwrap();
    let _ = ds.get_market_data("AAPL", 5);
    let _ = ds.get_market_data("AAPL", 9);
    let stats = ds.get_cache_stats();
    // one access from the insert, two from the reads
    assert_eq!(stats.total_access_count, 3);
    // the counts partition the entries by provenance
    assert_eq!(
        stats.websocket_entries + stats.mock_entries + stats.http_entries,
        stats.total_entries
    );
}

#[test]
fn test_network_operation_gate() {
    let mut ds = DataService::new();
    // the default limiter admits a hundred requests a minute
    for i in 0..100u64 {
        assert!(ds.before_network_operation(i).is_ok());
    }
    assert!(ds.before_network_operation(100).is_err());
    assert!(ds.is_offline() == false);

    // a failure yields a strategy; a success resets the policy
    assert!(ds.after_network_operation(Some("connect timed out".to_string()), 200).is_some());
    assert!(ds.after_network_operation(None, 300).is_none());
}
