//! Backoff and failure policy: a sliding-window rate limiter with
//! exponential backoff, an error classifier that picks a handling
//! strategy, and the user-facing connection status derived from both.

use vstd::prelude::*;

use crate::backoff_delay;
use crate::strutil::{dec_digits, u64_to_dec};

verus! {

use crate::messages::spec_min_int;

/// Baseline backoff, in milliseconds.
pub const BASE_BACKOFF_MS: u64 = 1000;

/// Largest backoff the limiter will ever report, in milliseconds.
pub const MAX_BACKOFF_MS: u64 = 300000;

/// A network failure, by kind.
#[derive(Clone, Debug)]
pub enum NetworkError {
    ConnectionFailed { message: String, retry_after_ms: Option<u64> },
    Timeout { operation: String, duration_ms: u64 },
    RateLimitExceeded { retry_after_ms: u64, limit: u32 },
    ServiceUnavailable { service: String, estimated_recovery_ms: Option<u64> },
    InvalidResponse { details: String },
    AuthenticationFailed { reason: String },
    Offline,
}

impl NetworkError {
    /// An equal copy of this error.
    pub fn duplicate(&self) -> (r: NetworkError)
        ensures
            r == *self,
    {
        match self {
            NetworkError::ConnectionFailed { message, retry_after_ms } => {
                NetworkError::ConnectionFailed {
                    message: message.clone(),
                    retry_after_ms: *retry_after_ms,
                }
            },
            NetworkError::Timeout { operation, duration_ms } => {
                NetworkError::Timeout { operation: operation.clone(), duration_ms: *duration_ms }
            },
            NetworkError::RateLimitExceeded { retry_after_ms, limit } => {
                NetworkError::RateLimitExceeded { retry_after_ms: *retry_after_ms, limit: *limit }
            },
            NetworkError::ServiceUnavailable { service, estimated_recovery_ms } => {
                NetworkError::ServiceUnavailable {
                    service: service.clone(),
                    estimated_recovery_ms: *estimated_recovery_ms,
                }
            },
            NetworkError::InvalidResponse { details } => {
                NetworkError::InvalidResponse { details: details.clone() }
            },
            NetworkError::AuthenticationFailed { reason } => {
                NetworkError::AuthenticationFailed { reason: reason.clone() }
            },
            NetworkError::Offline => NetworkError::Offline,
        }
    }

    /// A one-line account of the error.
    pub fn describe(&self) -> (r: String)
        ensures
            r@ == describe_error(*self),
    {
        match self {
            NetworkError::ConnectionFailed { message, retry_after_ms } => {
                let mut s = String::from_str("Connection failed: ");
                s.append(message.as_str());
                if let Some(ms) = retry_after_ms {
                    s.append(". Retry in ");
                    let d = u64_to_dec(*ms);
                    s.append(d.as_str());
                    s.append("ms");
                }
                s
            },
            NetworkError::Timeout { operation, duration_ms } => {
                let mut s = String::from_str("Operation '");
                s.append(operation.as_str());
                s.append("' timed out after ");
                let d = u64_to_dec(*duration_ms);
                s.append(d.as_str());
                s.append("ms");
                s
            },
            NetworkError::RateLimitExceeded { retry_after_ms, limit } => {
                let mut s = String::from_str("Rate limit exceeded (");
                let l = u64_to_dec(*limit as u64);
                s.append(l.as_str());
                s.append(" requests). Retry in ");
                let d = u64_to_dec(*retry_after_ms);
                s.append(d.as_str());
                s.append("ms");
                s
            },
            NetworkError::ServiceUnavailable { service, .. } => {
                let mut s = String::from_str("Service '");
                s.append(service.as_str());
                s.append("' unavailable");
                s
            },
            NetworkError::InvalidResponse { details } => {
                let mut s = String::from_str("Invalid response: ");
                s.append(details.as_str());
                s
            },
            NetworkError::AuthenticationFailed { reason } => {
                let mut s = String::from_str("Authentication failed: ");
                s.append(reason.as_str());
                s
            },
            NetworkError::Offline => String::from_str("Network is offline. Using cached data."),
        }
    }
}

/// The text `NetworkError::describe` produces.
pub open spec fn describe_error(e: NetworkError) -> Seq<char> {
    match e {
        NetworkError::ConnectionFailed { message, retry_after_ms } => {
            match retry_after_ms {
                Some(ms) => "Connection failed: "@ + message@ + ". Retry in "@ + dec_digits(
                    ms as int,
                ) + "ms"@,
                None => "Connection failed: "@ + message@,
            }
        },
        NetworkError::Timeout { operation, duration_ms } => {
            "Operation '"@ + operation@ + "' timed out after "@ + dec_digits(duration_ms as int)
                + "ms"@
        },
        NetworkError::RateLimitExceeded { retry_after_ms, limit } => {
            "Rate limit exceeded ("@ + dec_digits(limit as int) + " requests). Retry in "@
                + dec_digits(retry_after_ms as int) + "ms"@
        },
        NetworkError::ServiceUnavailable { service, .. } => {
            "Service '"@ + service@ + "' unavailable"@
        },
        NetworkError::InvalidResponse { details } => "Invalid response: "@ + details@,
        NetworkError::AuthenticationFailed { reason } => "Authentication failed: "@ + reason@,
        NetworkError::Offline => "Network is offline. Using cached data."@,
    }
}

/// The user-facing connection status.
#[derive(Clone, Debug)]
pub enum ConnectionStatus {
    Online,
    Offline,
    Degraded { reason: String },
    RateLimited { retry_after_ms: u64 },
    Reconnecting { attempt: u32, max_attempts: u32 },
}

impl ConnectionStatus {
    /// Whether data operations should be attempted in this status.
    pub fn can_perform_operations(&self) -> (r: bool)
        ensures
            r == (self is Online || self is Degraded),
    {
        match self {
            ConnectionStatus::Online => true,
            ConnectionStatus::Degraded { .. } => true,
            _ => false,
        }
    }

    /// A short status line for display.
    pub fn get_display_message(&self) -> (r: String)
        ensures
            r@ == display_message(*self),
    {
        match self {
            ConnectionStatus::Online => String::from_str("Connected"),
            ConnectionStatus::Offline => String::from_str("Offline - Using cached data"),
            ConnectionStatus::Degraded { reason } => {
                let mut s = String::from_str("Degraded: ");
                s.append(reason.as_str());
                s
            },
            ConnectionStatus::RateLimited { retry_after_ms } => {
                let mut s = String::from_str("Rate limited - Retry in ");
                let d = u64_to_dec(*retry_after_ms);
                s.append(d.as_str());
                s.append("ms");
                s
            },
            ConnectionStatus::Reconnecting { attempt, max_attempts } => {
                let mut s = String::from_str("Reconnecting... (Attempt ");
                let a = u64_to_dec(*attempt as u64);
                s.append(a.as_str());
                s.append("/");
                let m = u64_to_dec(*max_attempts as u64);
                s.append(m.as_str());
                s.append(")");
                s
            },
        }
    }

    /// An equal copy of this status.
    pub fn duplicate(&self) -> (r: ConnectionStatus)
        ensures
            r == *self,
    {
        match self {
            ConnectionStatus::Online => ConnectionStatus::Online,
            ConnectionStatus::Offline => ConnectionStatus::Offline,
            ConnectionStatus::Degraded { reason } => {
                ConnectionStatus::Degraded { reason: reason.clone() }
            },
            ConnectionStatus::RateLimited { retry_after_ms } => {
                ConnectionStatus::RateLimited { retry_after_ms: *retry_after_ms }
            },
            ConnectionStatus::Reconnecting { attempt, max_attempts } => {
                ConnectionStatus::Reconnecting { attempt: *attempt, max_attempts: *max_attempts }
            },
        }
    }
}

/// The text `ConnectionStatus::get_display_message` produces.
pub open spec fn display_message(s: ConnectionStatus) -> Seq<char> {
    match s {
        ConnectionStatus::Online => "Connected"@,
        ConnectionStatus::Offline => "Offline - Using cached data"@,
        ConnectionStatus::Degraded { reason } => "Degraded: "@ + reason@,
        ConnectionStatus::RateLimited { retry_after_ms } => "Rate limited - Retry in "@
            + dec_digits(retry_after_ms as int) + "ms"@,
        ConnectionStatus::Reconnecting { attempt, max_attempts } => "Reconnecting... (Attempt "@
            + dec_digits(attempt as int) + "/"@ + dec_digits(max_attempts as int) + ")"@,
    }
}

/// Whether a request stamped `t` still counts against the window at `now`.
pub open spec fn in_window(t: u64, now_ms: u64, window_ms: u64) -> bool {
    t <= now_ms && now_ms - t <= window_ms
}

/// The stamps that still count against the window, oldest first.
pub open spec fn fresh_stamps(stamps: Seq<u64>, now_ms: u64, window_ms: u64) -> Seq<u64> {
    stamps.filter(|t: u64| in_window(t, now_ms, window_ms))
}

/// Sliding-window rate limiter with exponential backoff tracking.
pub struct RateLimiter {
    pub max_requests_per_window: u32,
    pub window_duration_ms: u64,
    pub request_timestamps: Vec<u64>,
    pub current_backoff_ms: u64,
    pub max_backoff_ms: u64,
    pub consecutive_failures: u32,
}

impl RateLimiter {
    /// Internal consistency: the backoff stays within its bounds.
    pub open spec fn wf(self) -> bool {
        1 <= self.current_backoff_ms <= self.max_backoff_ms
    }

    pub open spec fn spec_limit(self) -> u32 {
        self.max_requests_per_window
    }

    pub open spec fn spec_window_ms(self) -> u64 {
        self.window_duration_ms
    }

    pub open spec fn spec_stamps(self) -> Seq<u64> {
        self.request_timestamps@
    }

    pub open spec fn spec_backoff_ms(self) -> u64 {
        self.current_backoff_ms
    }

    pub open spec fn spec_failures(self) -> u32 {
        self.consecutive_failures
    }

    pub fn new(max_requests_per_window: u32, window_duration_ms: u64) -> (r: RateLimiter)
        ensures
            r.wf(),
            r.spec_limit() == max_requests_per_window,
            r.spec_window_ms() == window_duration_ms,
            r.spec_stamps().len() == 0,
            r.spec_backoff_ms() == BASE_BACKOFF_MS,
            r.spec_failures() == 0,
            r.max_backoff_ms == MAX_BACKOFF_MS,
    {
        RateLimiter {
            max_requests_per_window,
            window_duration_ms,
            request_timestamps: Vec::new(),
            current_backoff_ms: BASE_BACKOFF_MS,
            max_backoff_ms: MAX_BACKOFF_MS,
            consecutive_failures: 0,
        }
    }

    /// Admit or refuse a request at `now_ms`. Stamps that have left the
    /// window are dropped; if the window is full the call fails with the
    /// time until the oldest stamp leaves the window, otherwise the
    /// request is recorded.
    pub fn check_rate_limit(&mut self, now_ms: u64) -> (r: Result<(), NetworkError>)
        ensures
            ({
                let kept = fresh_stamps(old(self).spec_stamps(), now_ms, old(self).spec_window_ms());
                &&& r is Ok <==> kept.len() < old(self).spec_limit()
                &&& r is Ok ==> final(self).spec_stamps() == kept.push(now_ms)
                &&& r is Err ==> final(self).spec_stamps() == kept
                &&& r is Err ==> (r->Err_0 matches NetworkError::RateLimitExceeded {
                    retry_after_ms,
                    limit,
                } && limit == old(self).spec_limit() && retry_after_ms as int == if kept.len() > 0 {
                    old(self).spec_window_ms() - (now_ms - kept[0])
                } else {
                    old(self).spec_window_ms() as int
                } && retry_after_ms <= old(self).spec_window_ms())
                &&& final(self).spec_limit() == old(self).spec_limit()
                &&& final(self).spec_window_ms() == old(self).spec_window_ms()
                &&& final(self).spec_backoff_ms() == old(self).spec_backoff_ms()
                &&& final(self).spec_failures() == old(self).spec_failures()
                &&& final(self).max_backoff_ms == old(self).max_backoff_ms
            }),
            old(self).wf() ==> final(self).wf(),
    {
        let mut kept: Vec<u64> = Vec::new();
        let mut i: usize = 0;
        while i < self.request_timestamps.len()
            invariant
                i <= self.request_timestamps@.len(),
                kept@ == fresh_stamps(
                    self.request_timestamps@.subrange(0, i as int),
                    now_ms,
                    self.window_duration_ms,
                ),
            decreases self.request_timestamps@.len() - i,
        {
            let t = self.request_timestamps[i];
            proof {
                reveal_with_fuel(Seq::filter, 2);
                let prefix = self.request_timestamps@.subrange(0, i as int + 1);
                assert(prefix.drop_last() =~= self.request_timestamps@.subrange(0, i as int));
                assert(prefix.last() == t);
                assert(fresh_stamps(prefix, now_ms, self.window_duration_ms) == if in_window(
                    t,
                    now_ms,
                    self.window_duration_ms,
                ) {
                    fresh_stamps(prefix.drop_last(), now_ms, self.window_duration_ms).push(t)
                } else {
                    fresh_stamps(prefix.drop_last(), now_ms, self.window_duration_ms)
                });
            }
            if t <= now_ms && now_ms - t <= self.window_duration_ms {
                kept.push(t);
            }
            i = i + 1;
        }
        proof {
            assert(self.request_timestamps@.subrange(0, self.request_timestamps@.len() as int)
                =~= self.request_timestamps@);
        }
        if kept.len() >= self.max_requests_per_window as usize {
            let retry_after_ms = if kept.len() > 0 {
                let oldest = kept[0];
                proof {
                    self.request_timestamps@.lemma_filter_pred(
                        |t: u64| in_window(t, now_ms, self.window_duration_ms),
                        0,
                    );
                }
                self.window_duration_ms - (now_ms - oldest)
            } else {
                self.window_duration_ms
            };
            let limit = self.max_requests_per_window;
            self.request_timestamps = kept;
            return Err(NetworkError::RateLimitExceeded { retry_after_ms, limit });
        }
        kept.push(now_ms);
        self.request_timestamps = kept;
        Ok(())
    }

    /// A success resets the failure streak and the backoff.
    pub fn record_success(&mut self)
        ensures
            final(self).spec_failures() == 0,
            final(self).spec_backoff_ms() == BASE_BACKOFF_MS,
            final(self).spec_stamps() == old(self).spec_stamps(),
            final(self).spec_limit() == old(self).spec_limit(),
            final(self).spec_window_ms() == old(self).spec_window_ms(),
            final(self).max_backoff_ms == old(self).max_backoff_ms,
            old(self).max_backoff_ms >= BASE_BACKOFF_MS ==> final(self).wf(),
    {
        self.consecutive_failures = 0;
        self.current_backoff_ms = BASE_BACKOFF_MS;
    }

    /// A failure lengthens the failure streak and doubles the backoff,
    /// up to the configured maximum; the backoff never shrinks.
    pub fn record_failure(&mut self)
        requires
            old(self).wf(),
        ensures
            final(self).wf(),
            final(self).spec_failures() == if old(self).spec_failures() < u32::MAX {
                old(self).spec_failures() + 1
            } else {
                old(self).spec_failures() as int
            },
            final(self).spec_backoff_ms() == if 2 * old(self).spec_backoff_ms() <= old(
                self,
            ).max_backoff_ms {
                2 * old(self).spec_backoff_ms()
            } else {
                old(self).max_backoff_ms as int
            },
            final(self).spec_backoff_ms() >= old(self).spec_backoff_ms(),
            final(self).spec_backoff_ms() <= old(self).max_backoff_ms,
            final(self).spec_stamps() == old(self).spec_stamps(),
            final(self).spec_limit() == old(self).spec_limit(),
            final(self).spec_window_ms() == old(self).spec_window_ms(),
            final(self).max_backoff_ms == old(self).max_backoff_ms,
    {
        if self.consecutive_failures < u32::MAX {
            self.consecutive_failures = self.consecutive_failures + 1;
        }
        let doubled = if self.current_backoff_ms <= self.max_backoff_ms / 2 {
            self.current_backoff_ms * 2
        } else {
            self.max_backoff_ms
        };
        self.current_backoff_ms = if doubled <= self.max_backoff_ms {
            doubled
        } else {
            self.max_backoff_ms
        };
    }

    /// The current backoff, in milliseconds.
    pub fn get_backoff_duration(&self) -> (r: u64)
        ensures
            r == self.spec_backoff_ms(),
    {
        self.current_backoff_ms
    }

    /// The current failure streak.
    pub fn get_failure_count(&self) -> (r: u32)
        ensures
            r == self.spec_failures(),
    {
        self.consecutive_failures
    }

    /// Forget all stamps, failures and backoff.
    pub fn reset(&mut self)
        ensures
            final(self).spec_stamps().len() == 0,
            final(self).spec_failures() == 0,
            final(self).spec_backoff_ms() == BASE_BACKOFF_MS,
            final(self).spec_limit() == old(self).spec_limit(),
            final(self).spec_window_ms() == old(self).spec_window_ms(),
            final(self).max_backoff_ms == old(self).max_backoff_ms,
            old(self).max_backoff_ms >= BASE_BACKOFF_MS ==> final(self).wf(),
    {
        self.request_timestamps = Vec::new();
        self.consecutive_failures = 0;
        self.current_backoff_ms = BASE_BACKOFF_MS;
    }
}

/// What a caller should do about a failure.
#[derive(Clone, Debug)]
pub enum ErrorHandlingStrategy {
    RetryWithBackoff { delay_ms: u64, max_attempts: u32 },
    QueueRequest { retry_after_ms: u64 },
    FallbackToCache,
    ShowError { user_message: String },
    Ignore,
}

/// An error history capped at `max` entries, oldest dropped first.
pub open spec fn capped_history(h: Seq<(NetworkError, u64)>, max: nat) -> Seq<(NetworkError, u64)> {
    if h.len() > max {
        h.drop_first()
    } else {
        h
    }
}

/// Classifies failures, keeps a bounded error history, and derives the
/// user-facing connection status.
pub struct NetworkErrorHandler {
    pub connection_status: ConnectionStatus,
    pub rate_limiter: RateLimiter,
    pub error_history: Vec<(NetworkError, u64)>,
    pub max_error_history: usize,
    pub offline_mode_enabled: bool,
    pub auto_retry_enabled: bool,
    pub max_retry_attempts: u32,
    pub fallback_to_cache_enabled: bool,
}

impl NetworkErrorHandler {
    pub open spec fn wf(self) -> bool {
        self.rate_limiter.wf() && self.rate_limiter.max_backoff_ms >= BASE_BACKOFF_MS
    }

    /// A handler that allows a hundred requests a minute, keeps the last
    /// hundred errors, retries up to three times and falls back to cache.
    pub fn new() -> (r: NetworkErrorHandler)
        ensures
            r.wf(),
            r.connection_status is Online,
            r.rate_limiter.spec_limit() == 100,
            r.rate_limiter.spec_window_ms() == 60000,
            r.error_history@.len() == 0,
            r.max_error_history == 100,
            !r.offline_mode_enabled,
            r.auto_retry_enabled,
            r.max_retry_attempts == 3,
            r.fallback_to_cache_enabled,
    {
        NetworkErrorHandler {
            connection_status: ConnectionStatus::Online,
            rate_limiter: RateLimiter::new(100, 60000),
            error_history: Vec::new(),
            max_error_history: 100,
            offline_mode_enabled: false,
            auto_retry_enabled: true,
            max_retry_attempts: 3,
            fallback_to_cache_enabled: true,
        }
    }

    /// Record a failure, adjust the connection status, and pick the
    /// handling strategy for it: connection failures and timeouts retry
    /// with backoff while allowed, a rate limit queues the request,
    /// unavailable services and bad responses fall back to cached data
    /// when enabled, and an authentication failure is always surfaced.
    pub fn handle_network_error(&mut self, error: NetworkError, now_ms: u64) -> (strategy:
        ErrorHandlingStrategy)
        requires
            old(self).wf(),
        ensures
            final(self).wf(),
            final(self).error_history@ == capped_history(
                old(self).error_history@.push((error, now_ms)),
                old(self).max_error_history as nat,
            ),
            final(self).max_error_history == old(self).max_error_history,
            final(self).auto_retry_enabled == old(self).auto_retry_enabled,
            final(self).max_retry_attempts == old(self).max_retry_attempts,
            final(self).fallback_to_cache_enabled == old(self).fallback_to_cache_enabled,
            error matches NetworkError::ConnectionFailed { retry_after_ms, .. } ==> {
                &&& final(self).connection_status is Offline
                &&& final(self).rate_limiter.spec_failures() == failures_after(old(self).rate_limiter)
                &&& final(self).rate_limiter.spec_backoff_ms() == backoff_after(old(self).rate_limiter)
                &&& old(self).auto_retry_enabled ==> strategy
                    == (ErrorHandlingStrategy::RetryWithBackoff {
                    delay_ms: match retry_after_ms {
                        Some(ms) => ms,
                        None => backoff_after(old(self).rate_limiter) as u64,
                    },
                    max_attempts: old(self).max_retry_attempts,
                })
                &&& !old(self).auto_retry_enabled && old(self).fallback_to_cache_enabled
                    ==> strategy is FallbackToCache
                &&& !old(self).auto_retry_enabled && !old(self).fallback_to_cache_enabled ==> (
                strategy matches ErrorHandlingStrategy::ShowError { user_message } && user_message@
                    == describe_error(error))
            },
            error matches NetworkError::Timeout { .. } ==> {
                &&& final(self).connection_status == old(self).connection_status
                &&& final(self).rate_limiter.spec_failures() == failures_after(old(self).rate_limiter)
                &&& final(self).rate_limiter.spec_backoff_ms() == backoff_after(old(self).rate_limiter)
                &&& strategy == if old(self).auto_retry_enabled && failures_after(
                    old(self).rate_limiter,
                ) < old(self).max_retry_attempts {
                    ErrorHandlingStrategy::RetryWithBackoff {
                        delay_ms: backoff_after(old(self).rate_limiter) as u64,
                        max_attempts: old(self).max_retry_attempts,
                    }
                } else {
                    ErrorHandlingStrategy::FallbackToCache
                }
            },
            error matches NetworkError::RateLimitExceeded { retry_after_ms, .. } ==> {
                &&& final(self).connection_status == (ConnectionStatus::RateLimited {
                    retry_after_ms,
                })
                &&& final(self).rate_limiter == old(self).rate_limiter
                &&& strategy == (ErrorHandlingStrategy::QueueRequest { retry_after_ms })
            },
            error matches NetworkError::ServiceUnavailable { .. } ==> {
                &&& final(self).connection_status matches ConnectionStatus::Degraded { reason }
                    && reason@ == "Service temporarily unavailable"@
                &&& final(self).rate_limiter == old(self).rate_limiter
                &&& old(self).fallback_to_cache_enabled ==> strategy is FallbackToCache
                &&& !old(self).fallback_to_cache_enabled ==> (strategy
                    matches ErrorHandlingStrategy::ShowError { user_message } && user_message@
                    == describe_error(error))
            },
            error matches NetworkError::InvalidResponse { .. } ==> {
                &&& final(self).connection_status == old(self).connection_status
                &&& final(self).rate_limiter == old(self).rate_limiter
                &&& old(self).fallback_to_cache_enabled ==> strategy is FallbackToCache
                &&& !old(self).fallback_to_cache_enabled ==> (strategy
                    matches ErrorHandlingStrategy::ShowError { user_message } && user_message@
                    == describe_error(error))
            },
            error matches NetworkError::AuthenticationFailed { .. } ==> {
                &&& final(self).connection_status == old(self).connection_status
                &&& final(self).rate_limiter == old(self).rate_limiter
                &&& (strategy matches ErrorHandlingStrategy::ShowError { user_message }
                    && user_message@ == "Authentication failed. Please check your credentials."@)
            },
            error is Offline ==> {
                &&& final(self).connection_status is Offline
                &&& final(self).offline_mode_enabled
                &&& final(self).rate_limiter == old(self).rate_limiter
                &&& strategy == ErrorHandlingStrategy::FallbackToCache
            },
            !(error is Offline) ==> final(self).offline_mode_enabled == old(
                self,
            ).offline_mode_enabled,
    {
        self.error_history.push((error.duplicate(), now_ms));
        if self.error_history.len() > self.max_error_history {
            self.error_history.remove(0);
        }
        proof {
            assert(self.error_history@ == capped_history(
                old(self).error_history@.push((error, now_ms)),
                old(self).max_error_history as nat,
            ));
        }
        match error {
            NetworkError::ConnectionFailed { message, retry_after_ms } => {
                self.connection_status = ConnectionStatus::Offline;
                self.rate_limiter.record_failure();
                if self.auto_retry_enabled {
                    let delay_ms = match retry_after_ms {
                        Some(ms) => ms,
                        None => self.rate_limiter.get_backoff_duration(),
                    };
                    ErrorHandlingStrategy::RetryWithBackoff {
                        delay_ms,
                        max_attempts: self.max_retry_attempts,
                    }
                } else if self.fallback_to_cache_enabled {
                    ErrorHandlingStrategy::FallbackToCache
                } else {
                    let e = NetworkError::ConnectionFailed { message, retry_after_ms };
                    ErrorHandlingStrategy::ShowError { user_message: e.describe() }
                }
            },
            NetworkError::Timeout { .. } => {
                self.rate_limiter.record_failure();
                if self.auto_retry_enabled && self.rate_limiter.get_failure_count()
                    < self.max_retry_attempts {
                    ErrorHandlingStrategy::RetryWithBackoff {
                        delay_ms: self.rate_limiter.get_backoff_duration(),
                        max_attempts: self.max_retry_attempts,
                    }
                } else {
                    ErrorHandlingStrategy::FallbackToCache
                }
            },
            NetworkError::RateLimitExceeded { retry_after_ms, .. } => {
                self.connection_status = ConnectionStatus::RateLimited { retry_after_ms };
                ErrorHandlingStrategy::QueueRequest { retry_after_ms }
            },
            NetworkError::ServiceUnavailable { service, estimated_recovery_ms } => {
                self.connection_status = ConnectionStatus::Degraded {
                    reason: String::from_str("Service temporarily unavailable"),
                };
                if self.fallback_to_cache_enabled {
                    ErrorHandlingStrategy::FallbackToCache
                } else {
                    let e = NetworkError::ServiceUnavailable { service, estimated_recovery_ms };
                    ErrorHandlingStrategy::ShowError { user_message: e.describe() }
                }
            },
            NetworkError::InvalidResponse { details } => {
                if self.fallback_to_cache_enabled {
                    ErrorHandlingStrategy::FallbackToCache
                } else {
                    let e = NetworkError::InvalidResponse { details };
                    ErrorHandlingStrategy::ShowError { user_message: e.describe() }
                }
            },
            NetworkError::AuthenticationFailed { .. } => {
                ErrorHandlingStrategy::ShowError {
                    user_message: String::from_str(
                        "Authentication failed. Please check your credentials.",
                    ),
                }
            },
            NetworkError::Offline => {
                self.connection_status = ConnectionStatus::Offline;
                self.offline_mode_enabled = true;
                ErrorHandlingStrategy::FallbackToCache
            },
        }
    }

    /// Gate a request on the rate limiter; a refusal is recorded in the
    /// error history and surfaced to the caller.
    pub fn check_rate_limit(&mut self, now_ms: u64) -> (r: Result<(), NetworkError>)
        requires
            old(self).wf(),
        ensures
            final(self).wf(),
            r is Ok <==> fresh_stamps(
                old(self).rate_limiter.spec_stamps(),
                now_ms,
                old(self).rate_limiter.spec_window_ms(),
            ).len() < old(self).rate_limiter.spec_limit(),
            r is Ok ==> *final(self) == (NetworkErrorHandler {
                rate_limiter: final(self).rate_limiter,
                ..*old(self)
            }),
            r is Ok ==> final(self).rate_limiter.spec_stamps() == fresh_stamps(
                old(self).rate_limiter.spec_stamps(),
                now_ms,
                old(self).rate_limiter.spec_window_ms(),
            ).push(now_ms),
            r is Ok ==> final(self).rate_limiter == (RateLimiter {
                request_timestamps: final(self).rate_limiter.request_timestamps,
                ..old(self).rate_limiter
            }),
            r is Err ==> (r->Err_0 matches NetworkError::RateLimitExceeded { retry_after_ms, .. }
                && retry_after_ms <= old(self).rate_limiter.spec_window_ms()
                && final(self).connection_status == (ConnectionStatus::RateLimited {
                retry_after_ms,
            })),
    {
        let checked = self.rate_limiter.check_rate_limit(now_ms);
        match checked {
            Ok(()) => Ok(()),
            Err(e) => {
                let repeat = e.duplicate();
                let _strategy = self.handle_network_error(repeat, now_ms);
                Err(e)
            },
        }
    }

    /// A success resets the backoff; a status of offline or degraded
    /// returns to online.
    pub fn record_success(&mut self)
        requires
            old(self).wf(),
        ensures
            final(self).wf(),
            final(self).rate_limiter.spec_failures() == 0,
            final(self).rate_limiter.spec_backoff_ms() == BASE_BACKOFF_MS,
            old(self).connection_status is Offline || old(self).connection_status is Degraded
                ==> final(self).connection_status is Online && !final(self).offline_mode_enabled,
            !(old(self).connection_status is Offline || old(self).connection_status is Degraded)
                ==> final(self).connection_status == old(self).connection_status
                && final(self).offline_mode_enabled == old(self).offline_mode_enabled,
            final(self).error_history@ == old(self).error_history@,
    {
        self.rate_limiter.record_success();
        let back_online = match &self.connection_status {
            ConnectionStatus::Offline => true,
            ConnectionStatus::Degraded { .. } => true,
            _ => false,
        };
        if back_online {
            self.connection_status = ConnectionStatus::Online;
            self.offline_mode_enabled = false;
        }
    }

    /// The current user-facing status.
    pub fn get_connection_status(&self) -> (r: &ConnectionStatus)
        ensures
            r == self.connection_status,
    {
        &self.connection_status
    }

    /// Whether the handler has switched to cached data only.
    pub fn is_offline_mode(&self) -> (r: bool)
        ensures
            r == self.offline_mode_enabled,
    {
        self.offline_mode_enabled
    }

    /// The most recent errors, newest first, at most `count` of them.
    pub fn get_recent_errors(&self, count: usize) -> (r: Vec<(NetworkError, u64)>)
        ensures
            r@.len() == spec_min_nat(count as nat, self.error_history@.len()),
            forall|k: int|
                0 <= k < r@.len() ==> #[trigger] r@[k] == self.error_history@[self.error_history@.len()
                    - 1 - k],
    {
        let mut r: Vec<(NetworkError, u64)> = Vec::new();
        let mut i: usize = self.error_history.len();
        while i > 0 && r.len() < count
            invariant
                i <= self.error_history@.len(),
                r@.len() == self.error_history@.len() - i,
                r@.len() <= count,
                forall|k: int|
                    0 <= k < r@.len() ==> #[trigger] r@[k] == self.error_history@[
                        self.error_history@.len() - 1 - k],
        decreases i,
        {
            i = i - 1;
            let (e, t) = &self.error_history[i];
            r.push((e.duplicate(), *t));
        }
        r
    }

    /// Forget the error history.
    pub fn clear_error_history(&mut self)
        ensures
            final(self).error_history@.len() == 0,
            final(self).connection_status == old(self).connection_status,
            final(self).rate_limiter == old(self).rate_limiter,
    {
        self.error_history = Vec::new();
    }

    /// Configure automatic retries.
    pub fn set_auto_retry(&mut self, enabled: bool, max_attempts: u32)
        ensures
            final(self).auto_retry_enabled == enabled,
            final(self).max_retry_attempts == max_attempts,
            final(self).rate_limiter == old(self).rate_limiter,
            final(self).connection_status == old(self).connection_status,
    {
        self.auto_retry_enabled = enabled;
        self.max_retry_attempts = max_attempts;
    }

    /// Configure the fallback to cached data.
    pub fn set_fallback_to_cache(&mut self, enabled: bool)
        ensures
            final(self).fallback_to_cache_enabled == enabled,
            final(self).rate_limiter == old(self).rate_limiter,
            final(self).connection_status == old(self).connection_status,
    {
        self.fallback_to_cache_enabled = enabled;
    }

    /// Replace the rate limiter with a fresh one.
    pub fn configure_rate_limiter(&mut self, max_requests: u32, window_ms: u64)
        ensures
            final(self).wf(),
            final(self).rate_limiter.spec_limit() == max_requests,
            final(self).rate_limiter.spec_window_ms() == window_ms,
            final(self).rate_limiter.spec_stamps().len() == 0,
            final(self).connection_status == old(self).connection_status,
            final(self).error_history@ == old(self).error_history@,
    {
        self.rate_limiter = RateLimiter::new(max_requests, window_ms);
    }

    /// Force or leave offline mode by hand.
    pub fn set_offline_mode(&mut self, enabled: bool)
        ensures
            final(self).offline_mode_enabled == enabled,
            enabled ==> final(self).connection_status is Offline,
            !enabled ==> final(self).connection_status is Online,
            final(self).rate_limiter == old(self).rate_limiter,
            final(self).error_history@ == old(self).error_history@,
    {
        self.offline_mode_enabled = enabled;
        self.connection_status = if enabled {
            ConnectionStatus::Offline
        } else {
            ConnectionStatus::Online
        };
    }
}

/// The smaller of two naturals.
pub open spec fn spec_min_nat(a: nat, b: nat) -> nat {
    if a <= b {
        a
    } else {
        b
    }
}

/// The failure streak after one more failure.
pub open spec fn failures_after(r: RateLimiter) -> int {
    if r.spec_failures() < u32::MAX {
        r.spec_failures() + 1
    } else {
        r.spec_failures() as int
    }
}

/// The backoff after one more failure.
pub open spec fn backoff_after(r: RateLimiter) -> int {
    if 2 * r.spec_backoff_ms() <= r.max_backoff_ms {
        2 * r.spec_backoff_ms()
    } else {
        r.max_backoff_ms as int
    }
}

/// The network error a bare HTTP status code stands for.
pub fn network_error_from_status(status_code: u16, message: String) -> (r: NetworkError)
    ensures
        status_code == 429 ==> r == (NetworkError::RateLimitExceeded {
            retry_after_ms: 60000u64,
            limit: 100u32,
        }),
        status_code == 503 ==> (r matches NetworkError::ServiceUnavailable {
            service,
            estimated_recovery_ms,
        } && service@ == "API"@ && estimated_recovery_ms is None),
        status_code == 401 || status_code == 403 ==> (r
            matches NetworkError::AuthenticationFailed { reason } && reason@ == message@),
        status_code != 429 && status_code != 503 && status_code != 401 && status_code != 403
            ==> (r matches NetworkError::ConnectionFailed { message: m, retry_after_ms } && m@
            == message@ && retry_after_ms == Some(5000u64)),
{
    match status_code {
        429 => NetworkError::RateLimitExceeded { retry_after_ms: 60000, limit: 100 },
        503 => NetworkError::ServiceUnavailable {
            service: String::from_str("API"),
            estimated_recovery_ms: None,
        },
        401 | 403 => NetworkError::AuthenticationFailed { reason: message },
        _ => NetworkError::ConnectionFailed { message, retry_after_ms: Some(5000) },
    }
}

/// Whether the error is worth retrying at all.
pub fn is_retryable_error(error: &NetworkError) -> (r: bool)
    ensures
        r == (error is ConnectionFailed || error is Timeout || error is ServiceUnavailable),
{
    match error {
        NetworkError::ConnectionFailed { .. } => true,
        NetworkError::Timeout { .. } => true,
        NetworkError::ServiceUnavailable { .. } => true,
        _ => false,
    }
}

/// The delay before retrying after `error`, on the given attempt:
/// exponential for connection failures and timeouts, the server's own
/// figure for a rate limit, linear for an unavailable service.
pub fn get_retry_delay(error: &NetworkError, attempt: u32) -> (delay_ms: u64)
    ensures
        error matches NetworkError::ConnectionFailed { retry_after_ms, .. } ==> delay_ms as int
            == match retry_after_ms {
            Some(ms) => ms as int,
            None => 1000 * crate::backoff_delay_spec(1, attempt, 60),
        },
        error is Timeout ==> delay_ms as int == 1000 * crate::backoff_delay_spec(1, attempt, 30),
        error matches NetworkError::RateLimitExceeded { retry_after_ms, .. } ==> delay_ms
            == retry_after_ms,
        error is ServiceUnavailable ==> delay_ms as int == 10000 * spec_min_int(
            attempt as int,
            6,
        ),
        error is InvalidResponse || error is AuthenticationFailed || error is Offline
            ==> delay_ms == 5000,
{
    match error {
        NetworkError::ConnectionFailed { retry_after_ms, .. } => {
            match retry_after_ms {
                Some(ms) => *ms,
                None => 1000 * backoff_delay(1, attempt, 60),
            }
        },
        NetworkError::Timeout { .. } => 1000 * backoff_delay(1, attempt, 30),
        NetworkError::RateLimitExceeded { retry_after_ms, .. } => *retry_after_ms,
        NetworkError::ServiceUnavailable { .. } => {
            let a = if attempt > 6 {
                6u64
            } else {
                attempt as u64
            };
            10000 * a
        },
        _ => 5000,
    }
}

} // verus!

