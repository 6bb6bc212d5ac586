//! The configuration surface the core consumes: endpoints, TTLs,
//! reconnect and heartbeat figures, and the vendor-feed credentials
//! with their daily quota, together with the rules that validate them.
//!
//! Durations are plain seconds here, as a configuration file would
//! carry them.

use vstd::prelude::*;

use crate::cache::TimeFrame;
use crate::strutil::{lower_seq, starts_with, str_eq_ignore_case, str_starts_with};

verus! {

/// Where a panel docks.
#[derive(Clone, Copy, Debug, PartialEq, Eq, Structural)]
pub enum DockPosition {
    Left,
    Right,
    Bottom,
}

/// Read a dock position name, in any letter case.
pub fn parse_dock_position(position: &str) -> (r: Option<DockPosition>)
    ensures
        r == Some(DockPosition::Left) <==> lower_seq(position@) == "left"@,
        r == Some(DockPosition::Right) <==> lower_seq(position@) == "right"@,
        r == Some(DockPosition::Bottom) <==> lower_seq(position@) == "bottom"@,
        r is None <==> lower_seq(position@) != "left"@ && lower_seq(position@) != "right"@
            && lower_seq(position@) != "bottom"@,
{
    proof {
        reveal_strlit("left");
        reveal_strlit("right");
        reveal_strlit("bottom");
        crate::strutil::lemma_lower_seq_of_lower("left"@);
        crate::strutil::lemma_lower_seq_of_lower("right"@);
        crate::strutil::lemma_lower_seq_of_lower("bottom"@);
    }
    if str_eq_ignore_case(position, "left") {
        Some(DockPosition::Left)
    } else if str_eq_ignore_case(position, "right") {
        Some(DockPosition::Right)
    } else if str_eq_ignore_case(position, "bottom") {
        Some(DockPosition::Bottom)
    } else {
        None
    }
}

/// Why a configuration was refused.
#[derive(Clone, Copy, Debug, PartialEq, Eq, Structural)]
pub enum SettingsError {
    EmptyMarketDataUrl,
    ZeroRequestTimeout,
    ZeroMaxRetryAttempts,
    ZeroMaxCacheSize,
    ZeroReconnectAttempts,
    MissingAppKey,
    MissingAppSecret,
    MissingAccessToken,
    ZeroRateLimit,
    EmptyEndpoint,
    BadEndpointScheme,
    ZeroDailyQuota,
}

/// Endpoints and limits of the fallback fetch path.
pub struct ApiConfig {
    pub market_data_url: String,
    pub trading_api_url: Option<String>,
    pub websocket_url: Option<String>,
    pub api_key: Option<String>,
    pub request_timeout_secs: u64,
    pub max_retry_attempts: u32,
    pub rate_limit_per_minute: u32,
}

/// Default panel geometry, kept as plain pairs.
pub struct PanelConfig {
    pub default_positions: Vec<(String, DockPosition)>,
    pub panel_sizes: Vec<(String, u32)>,
    pub panel_visibility: Vec<(String, bool)>,
    pub restore_on_startup: bool,
}

/// Colors of the price display.
pub struct ThemeConfig {
    pub positive_color: String,
    pub negative_color: String,
    pub neutral_color: String,
    pub chart_background: Option<String>,
    pub grid_color: String,
    pub use_theme_colors: bool,
}

/// TTLs and limits of the caches.
pub struct CacheConfig {
    pub market_data_cache_duration_secs: u64,
    pub historical_data_cache_duration_secs: u64,
    pub order_book_cache_duration_secs: u64,
    pub max_cache_size: usize,
    pub auto_cleanup_enabled: bool,
    pub cleanup_interval_secs: u64,
}

/// The streaming client's figures.
pub struct WebSocketConfig {
    pub enabled: bool,
    pub max_reconnect_attempts: u32,
    pub reconnect_delay_secs: u64,
    pub heartbeat_interval_secs: u64,
    pub deduplication_window_secs: u64,
    pub auto_subscribe: bool,
}

/// The vendor feed's credentials and quota.
pub struct LongportConfig {
    pub enabled: bool,
    pub app_key: Option<String>,
    pub app_secret: Option<String>,
    pub access_token: Option<String>,
    pub api_endpoint: Option<String>,
    pub use_for_realtime: bool,
    pub use_for_historical: bool,
    pub daily_quota_limit: Option<u32>,
    pub current_usage_count: u32,
    pub rate_limit_per_minute: u32,
    pub auto_fallback_to_mock: bool,
}

/// Everything the core consumes.
pub struct StockTradingSettings {
    pub default_watchlist: Vec<String>,
    pub default_timeframe: TimeFrame,
    pub auto_refresh_interval_secs: u64,
    pub use_mock_data: bool,
    pub api_config: ApiConfig,
    pub panel_config: PanelConfig,
    pub theme_config: ThemeConfig,
    pub cache_config: CacheConfig,
    pub websocket_config: WebSocketConfig,
    pub longport_config: LongportConfig,
}

/// A credential that is absent or blank.
pub open spec fn credential_missing(c: Option<String>) -> bool {
    match c {
        None => true,
        Some(s) => s@.len() == 0,
    }
}

/// An endpoint that does not name a web scheme.
pub open spec fn endpoint_scheme_ok(e: Seq<char>) -> bool {
    starts_with(e, "http://"@) || starts_with(e, "https://"@)
}

/// Check the vendor-feed configuration: a disabled feed needs nothing;
/// an enabled one needs all three credentials, a positive rate limit, a
/// well-formed endpoint when one is given, and a positive quota when
/// one is given.
pub fn validate_longport_config(config: &LongportConfig) -> (r: Result<(), SettingsError>)
    ensures
        !config.enabled ==> r is Ok,
        config.enabled ==> {
            let key_missing = credential_missing(config.app_key);
            let secret_missing = credential_missing(config.app_secret);
            let token_missing = credential_missing(config.access_token);
            let zero_rate = config.rate_limit_per_minute == 0;
            let empty_endpoint = config.api_endpoint matches Some(e) && e@.len() == 0;
            let bad_scheme = config.api_endpoint matches Some(e) && e@.len() > 0
                && !endpoint_scheme_ok(e@);
            let zero_quota = config.daily_quota_limit == Some(0u32);
            &&& r == Err::<(), SettingsError>(SettingsError::MissingAppKey) <==> key_missing
            &&& r == Err::<(), SettingsError>(SettingsError::MissingAppSecret) <==> !key_missing
                && secret_missing
            &&& r == Err::<(), SettingsError>(SettingsError::MissingAccessToken) <==> !key_missing
                && !secret_missing && token_missing
            &&& r == Err::<(), SettingsError>(SettingsError::ZeroRateLimit) <==> !key_missing
                && !secret_missing && !token_missing && zero_rate
            &&& r == Err::<(), SettingsError>(SettingsError::EmptyEndpoint) <==> !key_missing
                && !secret_missing && !token_missing && !zero_rate && empty_endpoint
            &&& r == Err::<(), SettingsError>(SettingsError::BadEndpointScheme) <==> !key_missing
                && !secret_missing && !token_missing && !zero_rate && bad_scheme
            &&& r == Err::<(), SettingsError>(SettingsError::ZeroDailyQuota) <==> !key_missing
                && !secret_missing && !token_missing && !zero_rate && !empty_endpoint
                && !bad_scheme && zero_quota
            &&& r is Ok <==> !key_missing && !secret_missing && !token_missing && !zero_rate
                && !empty_endpoint && !bad_scheme && !zero_quota
        },
{
    if !config.enabled {
        return Ok(());
    }
    match &config.app_key {
        None => {
            return Err(SettingsError::MissingAppKey);
        },
        Some(k) => {
            if k.as_str().is_empty() {
                return Err(SettingsError::MissingAppKey);
            }
        },
    }
    match &config.app_secret {
        None => {
            return Err(SettingsError::MissingAppSecret);
        },
        Some(k) => {
            if k.as_str().is_empty() {
                return Err(SettingsError::MissingAppSecret);
            }
        },
    }
    match &config.access_token {
        None => {
            return Err(SettingsError::MissingAccessToken);
        },
        Some(k) => {
            if k.as_str().is_empty() {
                return Err(SettingsError::MissingAccessToken);
            }
        },
    }
    if config.rate_limit_per_minute == 0 {
        return Err(SettingsError::ZeroRateLimit);
    }
    if let Some(endpoint) = &config.api_endpoint {
        if endpoint.as_str().is_empty() {
            return Err(SettingsError::EmptyEndpoint);
        }
        if !str_starts_with(endpoint.as_str(), "http://") && !str_starts_with(
            endpoint.as_str(),
            "https://",
        ) {
            return Err(SettingsError::BadEndpointScheme);
        }
    }
    if let Some(quota) = config.daily_quota_limit {
        if quota == 0 {
            return Err(SettingsError::ZeroDailyQuota);
        }
    }
    Ok(())
}

/// Check the whole configuration: the fallback URL, the timeouts and
/// limits must be usable, and the vendor feed's rules must hold.
pub fn validate_settings(settings: &StockTradingSettings) -> (r: Result<(), SettingsError>)
    ensures
        r == Err::<(), SettingsError>(SettingsError::EmptyMarketDataUrl)
            <==> settings.api_config.market_data_url@.len() == 0,
        r is Ok ==> {
            &&& settings.api_config.market_data_url@.len() > 0
            &&& settings.api_config.request_timeout_secs > 0
            &&& settings.api_config.max_retry_attempts > 0
            &&& settings.cache_config.max_cache_size > 0
            &&& (settings.websocket_config.enabled
                ==> settings.websocket_config.max_reconnect_attempts > 0)
        },
        settings.api_config.market_data_url@.len() > 0 && settings.api_config.request_timeout_secs
            > 0 && settings.api_config.max_retry_attempts > 0
            && settings.cache_config.max_cache_size > 0 && (settings.websocket_config.enabled
            ==> settings.websocket_config.max_reconnect_attempts > 0)
            && !settings.longport_config.enabled ==> r is Ok,
{
    if settings.api_config.market_data_url.as_str().is_empty() {
        return Err(SettingsError::EmptyMarketDataUrl);
    }
    if settings.api_config.request_timeout_secs == 0 {
        return Err(SettingsError::ZeroRequestTimeout);
    }
    if settings.api_config.max_retry_attempts == 0 {
        return Err(SettingsError::ZeroMaxRetryAttempts);
    }
    if settings.cache_config.max_cache_size == 0 {
        return Err(SettingsError::ZeroMaxCacheSize);
    }
    if settings.websocket_config.enabled && settings.websocket_config.max_reconnect_attempts == 0 {
        return Err(SettingsError::ZeroReconnectAttempts);
    }
    validate_longport_config(&settings.longport_config)
}

/// Whether all three vendor credentials are present.
pub fn has_longport_credentials(config: &LongportConfig) -> (r: bool)
    ensures
        r == (config.app_key is Some && config.app_secret is Some && config.access_token is Some),
{
    config.app_key.is_some() && config.app_secret.is_some() && config.access_token.is_some()
}

/// Whether the daily quota, if one is set, is used up.
pub fn is_longport_quota_exceeded(config: &LongportConfig) -> (r: bool)
    ensures
        r == match config.daily_quota_limit {
            Some(limit) => config.current_usage_count >= limit,
            None => false,
        },
{
    match config.daily_quota_limit {
        Some(limit) => config.current_usage_count >= limit,
        None => false,
    }
}

/// The remaining daily quota, if one is set.
pub fn get_remaining_longport_quota(config: &LongportConfig) -> (r: Option<u32>)
    ensures
        r == match config.daily_quota_limit {
            Some(limit) => if config.current_usage_count <= limit {
                Some((limit - config.current_usage_count) as u32)
            } else {
                Some(0u32)
            },
            None => None::<u32>,
        },
{
    match config.daily_quota_limit {
        Some(limit) => {
            if config.current_usage_count <= limit {
                Some(limit - config.current_usage_count)
            } else {
                Some(0)
            }
        },
        None => None,
    }
}

/// Count one more request against the quota, saturating.
pub fn increment_longport_usage(config: &mut LongportConfig)
    ensures
        final(config).current_usage_count == if old(config).current_usage_count < u32::MAX {
            old(config).current_usage_count + 1
        } else {
            old(config).current_usage_count as int
        },
        *final(config) == (LongportConfig {
            current_usage_count: final(config).current_usage_count,
            ..*old(config)
        }),
{
    if config.current_usage_count < u32::MAX {
        config.current_usage_count = config.current_usage_count + 1;
    }
}

/// Clear the daily usage count, as a new day does. Everything else is
/// kept, so a second reset leaves the configuration identical.
pub fn reset_longport_usage(config: &mut LongportConfig)
    ensures
        *final(config) == (LongportConfig { current_usage_count: 0, ..*old(config) }),
{
    config.current_usage_count = 0;
}

} // verus!
