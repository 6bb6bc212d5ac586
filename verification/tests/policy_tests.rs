//! Tests of the rate limiter, backoff tracking, error classification
//! and the connection status.

use stock_trading::policy::{
    get_retry_delay, is_retryable_error, network_error_from_status, ConnectionStatus,
    ErrorHandlingStrategy, NetworkError, NetworkErrorHandler, RateLimiter,
};

#[test]
fn test_rate_limiter_basic() {
    let mut limiter = RateLimiter::new(3, 1000);

    // First 3 requests should succeed
    assert!(limiter.check_rate_limit(0).is_ok());
    assert!(limiter.check_rate_limit(0).is_ok());
    assert!(limiter.check_rate_limit(0).is_ok());

    // 4th request should fail
    assert!(limiter.check_rate_limit(0).is_err());
}

#[test]
fn test_rate_limiter_backoff() {
    let mut limiter = RateLimiter::new(10, 60000);

    // Record failures and check backoff increases
    let initial_backoff = limiter.get_backoff_duration();
    limiter.record_failure();
    let after_one_failure = limiter.get_backoff_duration();
    limiter.record_failure();
    let after_two_failures = limiter.get_backoff_duration();

    assert!(after_one_failure > initial_backoff);
    assert!(after_two_failures > after_one_failure);
}

#[test]
fn test_connection_status_display() {
    let status = ConnectionStatus::Online;
    assert_eq!(status.get_display_message(), "Connected");

    let status = ConnectionStatus::Offline;
    assert!(status.get_display_message().contains("Offline"));

    let status = ConnectionStatus::RateLimited {
        retry_after_ms: 30000,
    };
    assert!(status.get_display_message().contains("Rate limited"));
}

#[test]
fn test_rate_limiter_window() {
    // limit 3 per one-second window: the 4th call within the window
    // fails with a retry-after of at most the window, and once the
    // window has passed the limiter admits requests again.
    let mut limiter = RateLimiter::new(3, 1000);
    assert!(limiter.check_rate_limit(0).is_ok());
    assert!(limiter.check_rate_limit(200).is_ok());
    assert!(limiter.check_rate_limit(400).is_ok());
    match limiter.check_rate_limit(600) {
        Err(NetworkError::RateLimitExceeded {
            retry_after_ms,
            limit,
        }) => {
            assert!(retry_after_ms <= 1000);
            assert_eq!(limit, 3);
        }
        other => panic!("expected a rate limit refusal, got {:?}", other),
    }
    assert!(limiter.check_rate_limit(1601).is_ok());
}

#[test]
fn test_rate_limiter_reset_and_success() {
    let mut limiter = RateLimiter::new(2, 1000);
    limiter.record_failure();
    limiter.record_failure();
    assert_eq!(limiter.get_failure_count(), 2);
    limiter.record_success();
    assert_eq!(limiter.get_failure_count(), 0);
    assert_eq!(limiter.get_backoff_duration(), 1000);

    assert!(limiter.check_rate_limit(0).is_ok());
    assert!(limiter.check_rate_limit(0).is_ok());
    assert!(limiter.check_rate_limit(0).is_err());
    limiter.reset();
    assert!(limiter.check_rate_limit(0).is_ok());
}

#[test]
fn test_backoff_capped_at_maximum() {
    let mut limiter = RateLimiter::new(10, 60000);
    let mut previous = limiter.get_backoff_duration();
    for _ in 0..20 {
        limiter.record_failure();
        let next = limiter.get_backoff_duration();
        assert!(next >= previous);
        assert!(next <= 300000);
        previous = next;
    }
    assert_eq!(limiter.get_backoff_duration(), 300000);
}

#[test]
fn test_network_error_from_status() {
    match network_error_from_status(429, "too many".to_string()) {
        NetworkError::RateLimitExceeded {
            retry_after_ms,
            limit,
        } => {
            assert_eq!(retry_after_ms, 60000);
            assert_eq!(limit, 100);
        }
        other => panic!("unexpected {:?}", other),
    }
    match network_error_from_status(503, "down".to_string()) {
        NetworkError::ServiceUnavailable { service, .. } => assert_eq!(service, "API"),
        other => panic!("unexpected {:?}", other),
    }
    match network_error_from_status(401, "denied".to_string()) {
        NetworkError::AuthenticationFailed { reason } => assert_eq!(reason, "denied"),
        other => panic!("unexpected {:?}", other),
    }
    match network_error_from_status(500, "boom".to_string()) {
        NetworkError::ConnectionFailed {
            message,
            retry_after_ms,
        } => {
            assert_eq!(message, "boom");
            assert_eq!(retry_after_ms, Some(5000));
        }
        other => panic!("unexpected {:?}", other),
    }
}

#[test]
fn test_is_retryable_error() {
    assert!(is_retryable_error(&NetworkError::ConnectionFailed {
        message: "x".to_string(),
        retry_after_ms: None,
    }));
    assert!(is_retryable_error(&NetworkError::Timeout {
        operation: "fetch".to_string(),
        duration_ms: 100,
    }));
    assert!(is_retryable_error(&NetworkError::ServiceUnavailable {
        service: "API".to_string(),
        estimated_recovery_ms: None,
    }));
    assert!(!is_retryable_error(&NetworkError::AuthenticationFailed {
        reason: "no".to_string(),
    }));
    assert!(!is_retryable_error(&NetworkError::Offline));
    assert!(!is_retryable_error(&NetworkError::InvalidResponse {
        details: "bad".to_string(),
    }));
    assert!(!is_retryable_error(&NetworkError::RateLimitExceeded {
        retry_after_ms: 1,
        limit: 1,
    }));
}

#[test]
fn test_get_retry_delay() {
    let timeout = NetworkError::Timeout {
        operation: "fetch".to_string(),
        duration_ms: 100,
    };
    // exponential in whole seconds, capped at thirty
    assert_eq!(get_retry_delay(&timeout, 0), 1000);
    assert_eq!(get_retry_delay(&timeout, 3), 8000);
    assert_eq!(get_retry_delay(&timeout, 20), 30000);

    let rate = NetworkError::RateLimitExceeded {
        retry_after_ms: 1234,
        limit: 9,
    };
    assert_eq!(get_retry_delay(&rate, 5), 1234);

    let unavailable = NetworkError::ServiceUnavailable {
        service: "API".to_string(),
        estimated_recovery_ms: None,
    };
    assert_eq!(get_retry_delay(&unavailable, 2), 20000);
    assert_eq!(get_retry_delay(&unavailable, 9), 60000);

    assert_eq!(get_retry_delay(&NetworkError::Offline, 4), 5000);
}

#[test]
fn test_handler_strategies() {
    let mut handler = NetworkErrorHandler::new();

    let strategy = handler.handle_network_error(
        NetworkError::ConnectionFailed {
            message: "refused".to_string(),
            retry_after_ms: Some(700),
        },
        0,
    );
    match strategy {
        ErrorHandlingStrategy::RetryWithBackoff {
            delay_ms,
            max_attempts,
        } => {
            assert_eq!(delay_ms, 700);
            assert_eq!(max_attempts, 3);
        }
        other => panic!("unexpected {:?}", other),
    }
    assert!(matches!(
        handler.get_connection_status(),
        ConnectionStatus::Offline
    ));

    let strategy = handler.handle_network_error(
        NetworkError::RateLimitExceeded {
            retry_after_ms: 900,
            limit: 3,
        },
        1,
    );
    assert!(
        matches!(strategy, ErrorHandlingStrategy::QueueRequest { retry_after_ms } if retry_after_ms == 900)
    );
    assert!(matches!(
        handler.get_connection_status(),
        ConnectionStatus::RateLimited { retry_after_ms: 900 }
    ));

    let strategy = handler.handle_network_error(
        NetworkError::ServiceUnavailable {
            service: "API".to_string(),
            estimated_recovery_ms: None,
        },
        2,
    );
    assert!(matches!(strategy, ErrorHandlingStrategy::FallbackToCache));

    let strategy = handler.handle_network_error(
        NetworkError::AuthenticationFailed {
            reason: "denied".to_string(),
        },
        3,
    );
    match strategy {
        ErrorHandlingStrategy::ShowError { user_message } => {
            assert!(user_message.contains("Authentication failed"));
        }
        other => panic!("unexpected {:?}", other),
    }

    let strategy = handler.handle_network_error(NetworkError::Offline, 4);
    assert!(matches!(strategy, ErrorHandlingStrategy::FallbackToCache));
    assert!(handler.is_offline_mode());

    handler.record_success();
    assert!(!handler.is_offline_mode());
    assert!(matches!(
        handler.get_connection_status(),
        ConnectionStatus::Online
    ));
}

#[test]
fn test_handler_history() {
    let mut handler = NetworkErrorHandler::new();
    handler.handle_network_error(NetworkError::Offline, 10);
    handler.handle_network_error(
        NetworkError::InvalidResponse {
            details: "bad json".to_string(),
        },
        20,
    );
    let recent = handler.get_recent_errors(5);
    assert_eq!(recent.len(), 2);
    assert_eq!(recent[0].1, 20);
    assert_eq!(recent[1].1, 10);
    handler.clear_error_history();
    assert!(handler.get_recent_errors(5).is_empty());
}

#[test]
fn test_describe_error() {
    let e = NetworkError::ConnectionFailed {
        message: "refused".to_string(),
        retry_after_ms: Some(250),
    };
    assert_eq!(e.describe(), "Connection failed: refused. Retry in 250ms");
    let e = NetworkError::Offline;
    assert_eq!(e.describe(), "Network is offline. Using cached data.");
}
