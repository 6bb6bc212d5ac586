//! Tests of configuration validation and the vendor-feed quota rules.

use stock_trading::cache::TimeFrame;
use stock_trading::settings::{
    get_remaining_longport_quota, has_longport_credentials, increment_longport_usage,
    is_longport_quota_exceeded, parse_dock_position, reset_longport_usage,
    validate_longport_config, validate_settings, ApiConfig, CacheConfig, DockPosition,
    LongportConfig, PanelConfig, StockTradingSettings, ThemeConfig, WebSocketConfig,
};

fn base_settings() -> StockTradingSettings {
    StockTradingSettings {
        default_watchlist: vec!["AAPL".to_string()],
        default_timeframe: TimeFrame::OneDay,
        auto_refresh_interval_secs: 30,
        use_mock_data: true,
        api_config: ApiConfig {
            market_data_url: "https://api.example.com".to_string(),
            trading_api_url: None,
            websocket_url: None,
            api_key: None,
            request_timeout_secs: 30,
            max_retry_attempts: 3,
            rate_limit_per_minute: 60,
        },
        panel_config: PanelConfig {
            default_positions: Vec::new(),
            panel_sizes: Vec::new(),
            panel_visibility: Vec::new(),
            restore_on_startup: true,
        },
        theme_config: ThemeConfig {
            positive_color: "#00ff00".to_string(),
            negative_color: "#ff0000".to_string(),
            neutral_color: "#808080".to_string(),
            chart_background: None,
            grid_color: "#404040".to_string(),
            use_theme_colors: true,
        },
        cache_config: CacheConfig {
            market_data_cache_duration_secs: 60,
            historical_data_cache_duration_secs: 300,
            order_book_cache_duration_secs: 5,
            max_cache_size: 1000,
            auto_cleanup_enabled: true,
            cleanup_interval_secs: 300,
        },
        websocket_config: WebSocketConfig {
            enabled: true,
            max_reconnect_attempts: 10,
            reconnect_delay_secs: 5,
            heartbeat_interval_secs: 30,
            deduplication_window_secs: 5,
            auto_subscribe: true,
        },
        longport_config: LongportConfig {
            enabled: false,
            app_key: None,
            app_secret: None,
            access_token: None,
            api_endpoint: None,
            use_for_realtime: true,
            use_for_historical: true,
            daily_quota_limit: None,
            current_usage_count: 0,
            rate_limit_per_minute: 30,
            auto_fallback_to_mock: true,
        },
    }
}

#[test]
fn test_parse_dock_position() {
    assert_eq!(parse_dock_position("left"), Some(DockPosition::Left));
    assert_eq!(parse_dock_position("RIGHT"), Some(DockPosition::Right));
    assert_eq!(parse_dock_position("Bottom"), Some(DockPosition::Bottom));
    assert_eq!(parse_dock_position("invalid"), None);
}

#[test]
fn test_validate_settings() {
    let mut settings = base_settings();

    // Valid settings should pass
    assert!(validate_settings(&settings).is_ok());

    // Invalid market data URL
    settings.api_config.market_data_url = String::new();
    assert!(validate_settings(&settings).is_err());
    settings.api_config.market_data_url = "https://api.example.com".to_string();

    // Invalid cache size
    settings.cache_config.max_cache_size = 0;
    assert!(validate_settings(&settings).is_err());
}

#[test]
fn test_validate_longport_config_disabled() {
    let config = LongportConfig {
        enabled: false,
        app_key: None,
        app_secret: None,
        access_token: None,
        api_endpoint: None,
        use_for_realtime: true,
        use_for_historical: true,
        daily_quota_limit: None,
        current_usage_count: 0,
        rate_limit_per_minute: 30,
        auto_fallback_to_mock: true,
    };

    // Disabled config should pass validation even without credentials
    assert!(validate_longport_config(&config).is_ok());
}

#[test]
fn test_validate_longport_config_missing_credentials() {
    let mut config = LongportConfig {
        enabled: true,
        app_key: None,
        app_secret: None,
        access_token: None,
        api_endpoint: None,
        use_for_realtime: true,
        use_for_historical: true,
        daily_quota_limit: None,
        current_usage_count: 0,
        rate_limit_per_minute: 30,
        auto_fallback_to_mock: true,
    };

    // Missing app_key
    assert!(validate_longport_config(&config).is_err());

    // Missing app_secret
    config.app_key = Some("test_key".to_string());
    assert!(validate_longport_config(&config).is_err());

    // Missing access_token
    config.app_secret = Some("test_secret".to_string());
    assert!(validate_longport_config(&config).is_err());

    // All credentials provided
    config.access_token = Some("test_token".to_string());
    assert!(validate_longport_config(&config).is_ok());
}

#[test]
fn test_validate_longport_config_invalid_endpoint() {
    let mut config = LongportConfig {
        enabled: true,
        app_key: Some("test_key".to_string()),
        app_secret: Some("test_secret".to_string()),
        access_token: Some("test_token".to_string()),
        api_endpoint: Some("invalid_url".to_string()),
        use_for_realtime: true,
        use_for_historical: true,
        daily_quota_limit: None,
        current_usage_count: 0,
        rate_limit_per_minute: 30,
        auto_fallback_to_mock: true,
    };

    // Invalid endpoint URL
    assert!(validate_longport_config(&config).is_err());

    // Valid HTTPS endpoint
    config.api_endpoint = Some("https://api.longport.com".to_string());
    assert!(validate_longport_config(&config).is_ok());

    // Valid HTTP endpoint
    config.api_endpoint = Some("http://localhost:8080".to_string());
    assert!(validate_longport_config(&config).is_ok());
}

#[test]
fn test_validate_longport_config_rate_limit() {
    let mut config = LongportConfig {
        enabled: true,
        app_key: Some("test_key".to_string()),
        app_secret: Some("test_secret".to_string()),
        access_token: Some("test_token".to_string()),
        api_endpoint: None,
        use_for_realtime: true,
        use_for_historical: true,
        daily_quota_limit: None,
        current_usage_count: 0,
        rate_limit_per_minute: 0,
        auto_fallback_to_mock: true,
    };

    // Zero rate limit should fail
    assert!(validate_longport_config(&config).is_err());

    // Valid rate limit
    config.rate_limit_per_minute = 30;
    assert!(validate_longport_config(&config).is_ok());
}

#[test]
fn test_has_longport_credentials() {
    let mut config = LongportConfig {
        enabled: true,
        app_key: None,
        app_secret: None,
        access_token: None,
        api_endpoint: None,
        use_for_realtime: true,
        use_for_historical: true,
        daily_quota_limit: None,
        current_usage_count: 0,
        rate_limit_per_minute: 30,
        auto_fallback_to_mock: true,
    };

    assert!(!has_longport_credentials(&config));

    config.app_key = Some("key".to_string());
    assert!(!has_longport_credentials(&config));

    config.app_secret = Some("secret".to_string());
    assert!(!has_longport_credentials(&config));

    config.access_token = Some("token".to_string());
    assert!(has_longport_credentials(&config));
}

#[test]
fn test_longport_quota_management() {
    let mut config = LongportConfig {
        enabled: true,
        app_key: Some("key".to_string()),
        app_secret: Some("secret".to_string()),
        access_token: Some("token".to_string()),
        api_endpoint: None,
        use_for_realtime: true,
        use_for_historical: true,
        daily_quota_limit: Some(100),
        current_usage_count: 0,
        rate_limit_per_minute: 30,
        auto_fallback_to_mock: true,
    };

    // Initial state
    assert!(!is_longport_quota_exceeded(&config));
    assert_eq!(get_remaining_longport_quota(&config), Some(100));

    // Increment usage
    for _ in 0..50 {
        increment_longport_usage(&mut config);
    }
    assert_eq!(config.current_usage_count, 50);
    assert!(!is_longport_quota_exceeded(&config));
    assert_eq!(get_remaining_longport_quota(&config), Some(50));

    // Reach limit
    for _ in 0..50 {
        increment_longport_usage(&mut config);
    }
    assert_eq!(config.current_usage_count, 100);
    assert!(is_longport_quota_exceeded(&config));
    assert_eq!(get_remaining_longport_quota(&config), Some(0));

    // Reset usage
    reset_longport_usage(&mut config);
    assert_eq!(config.current_usage_count, 0);
    assert!(!is_longport_quota_exceeded(&config));
    assert_eq!(get_remaining_longport_quota(&config), Some(100));
}

#[test]
fn test_longport_quota_no_limit() {
    let config = LongportConfig {
        enabled: true,
        app_key: Some("key".to_string()),
        app_secret: Some("secret".to_string()),
        access_token: Some("token".to_string()),
        api_endpoint: None,
        use_for_realtime: true,
        use_for_historical: true,
        daily_quota_limit: None,
        current_usage_count: 1000,
        rate_limit_per_minute: 30,
        auto_fallback_to_mock: true,
    };

    // No limit set, should never be exceeded
    assert!(!is_longport_quota_exceeded(&config));
    assert_eq!(get_remaining_longport_quota(&config), None);
}
