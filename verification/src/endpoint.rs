//! Endpoint pool entries: candidate server addresses with per-endpoint
//! failure counters and a cooldown rule. An endpoint that fails too
//! often is deactivated, never removed, so an operator can bring it back.

use vstd::prelude::*;

verus! {

/// Why an endpoint was refused.
#[derive(Clone, Copy, Debug, PartialEq, Eq, Structural)]
pub enum EndpointError {
    EmptyUrl,
    InvalidUrl,
}

/// Whether a string parses as a URL. The result depends on the string
/// alone.
pub uninterp spec fn url_well_formed(s: Seq<char>) -> bool;

/// Relies on url::Url::parse: accepts exactly the strings that parse as
/// absolute URLs.
#[verifier::external_body]
fn url_parses(s: &str) -> (r: bool)
    ensures
        r == url_well_formed(s@),
{
    url::Url::parse(s).is_ok()
}

/// One candidate server address with its failure record.
#[derive(Clone, Debug)]
pub struct WebSocketEndpoint {
    pub url: String,
    pub priority: u32,
    pub is_active: bool,
    pub last_connection_attempt_ms: Option<u64>,
    pub connection_failures: u32,
    pub max_failures_before_disable: u32,
}

/// Whether the endpoint may be tried again at `now_ms`, after waiting
/// out `cooldown_ms` since its last attempt.
pub open spec fn endpoint_should_retry(e: WebSocketEndpoint, cooldown_ms: u64, now_ms: u64) -> bool {
    if !e.is_active {
        false
    } else {
        match e.last_connection_attempt_ms {
            None => true,
            Some(t) => if t <= now_ms {
                now_ms - t >= cooldown_ms
            } else {
                true
            },
        }
    }
}

impl WebSocketEndpoint {
    /// An endpoint starts active, with no failures and a threshold of
    /// three failures before it is disabled.
    pub fn new(url: String, priority: u32) -> (r: Result<WebSocketEndpoint, EndpointError>)
        ensures
            url@.len() == 0 ==> r == Err::<WebSocketEndpoint, EndpointError>(
                EndpointError::EmptyUrl,
            ),
            url@.len() > 0 && !url_well_formed(url@) ==> r == Err::<
                WebSocketEndpoint,
                EndpointError,
            >(EndpointError::InvalidUrl),
            url@.len() > 0 && url_well_formed(url@) ==> {
                &&& r is Ok
                &&& r->Ok_0.url@ == url@
                &&& r->Ok_0.priority == priority
                &&& r->Ok_0.is_active
                &&& r->Ok_0.last_connection_attempt_ms is None
                &&& r->Ok_0.connection_failures == 0
                &&& r->Ok_0.max_failures_before_disable == 3
            },
    {
        if url.as_str().is_empty() {
            return Err(EndpointError::EmptyUrl);
        }
        if !url_parses(url.as_str()) {
            return Err(EndpointError::InvalidUrl);
        }
        Ok(
            WebSocketEndpoint {
                url,
                priority,
                is_active: true,
                last_connection_attempt_ms: None,
                connection_failures: 0,
                max_failures_before_disable: 3,
            },
        )
    }

    /// Count a failed attempt; once failures reach the threshold the
    /// endpoint is deactivated.
    pub fn record_failure(&mut self, now_ms: u64)
        ensures
            final(self).connection_failures == if old(self).connection_failures < u32::MAX {
                old(self).connection_failures + 1
            } else {
                old(self).connection_failures as int
            },
            *final(self) == (WebSocketEndpoint {
                connection_failures: final(self).connection_failures,
                last_connection_attempt_ms: Some(now_ms),
                is_active: old(self).is_active && final(self).connection_failures < old(
                    self,
                ).max_failures_before_disable,
                ..*old(self)
            }),
    {
        if self.connection_failures < u32::MAX {
            self.connection_failures = self.connection_failures + 1;
        }
        self.last_connection_attempt_ms = Some(now_ms);
        if self.connection_failures >= self.max_failures_before_disable {
            self.is_active = false;
        }
    }

    /// Count a successful connection: the failure count clears and the
    /// endpoint is active again.
    pub fn record_success(&mut self, now_ms: u64)
        ensures
            *final(self) == (WebSocketEndpoint {
                connection_failures: 0,
                last_connection_attempt_ms: Some(now_ms),
                is_active: true,
                ..*old(self)
            }),
    {
        self.connection_failures = 0;
        self.last_connection_attempt_ms = Some(now_ms);
        self.is_active = true;
    }

    /// Whether the endpoint may be tried again now.
    pub fn should_retry(&self, cooldown_ms: u64, now_ms: u64) -> (r: bool)
        ensures
            r == endpoint_should_retry(*self, cooldown_ms, now_ms),
    {
        if !self.is_active {
            return false;
        }
        match self.last_connection_attempt_ms {
            None => true,
            Some(t) => {
                if t <= now_ms {
                    now_ms - t >= cooldown_ms
                } else {
                    true
                }
            },
        }
    }
}

} // verus!
