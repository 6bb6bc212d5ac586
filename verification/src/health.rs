//! Connection health metrics: when traffic was last seen, ping/pong
//! round trips, and uptime. Mutated only by the streaming client's
//! receive and heartbeat paths.

use vstd::prelude::*;

verus! {

/// Liveness record of the current connection.
#[derive(Clone, Debug)]
pub struct ConnectionHealth {
    pub last_message_received_ms: Option<u64>,
    pub last_message_sent_ms: Option<u64>,
    pub messages_received_count: u64,
    pub messages_sent_count: u64,
    pub last_ping_sent_ms: Option<u64>,
    pub last_pong_received_ms: Option<u64>,
    pub latest_latency_ms: Option<u64>,
    pub connection_uptime_ms: u64,
    pub connection_established_at_ms: Option<u64>,
}

/// Whether traffic was seen within `timeout_ms` before `now_ms`.
pub open spec fn health_is_live(h: ConnectionHealth, timeout_ms: u64, now_ms: u64) -> bool {
    match h.last_message_received_ms {
        None => false,
        Some(t) => t <= now_ms && now_ms - t < timeout_ms,
    }
}

impl ConnectionHealth {
    /// Fresh metrics: nothing seen, nothing sent.
    pub fn new() -> (r: ConnectionHealth)
        ensures
            r.last_message_received_ms is None,
            r.last_message_sent_ms is None,
            r.messages_received_count == 0,
            r.messages_sent_count == 0,
            r.last_ping_sent_ms is None,
            r.last_pong_received_ms is None,
            r.latest_latency_ms is None,
            r.connection_uptime_ms == 0,
            r.connection_established_at_ms is None,
    {
        ConnectionHealth {
            last_message_received_ms: None,
            last_message_sent_ms: None,
            messages_received_count: 0,
            messages_sent_count: 0,
            last_ping_sent_ms: None,
            last_pong_received_ms: None,
            latest_latency_ms: None,
            connection_uptime_ms: 0,
            connection_established_at_ms: None,
        }
    }

    /// Note an inbound message.
    pub fn record_message_received(&mut self, now_ms: u64)
        ensures
            *final(self) == (ConnectionHealth {
                last_message_received_ms: Some(now_ms),
                messages_received_count: final(self).messages_received_count,
                ..*old(self)
            }),
            final(self).messages_received_count == if old(self).messages_received_count < u64::MAX {
                old(self).messages_received_count + 1
            } else {
                old(self).messages_received_count as int
            },
    {
        self.last_message_received_ms = Some(now_ms);
        if self.messages_received_count < u64::MAX {
            self.messages_received_count = self.messages_received_count + 1;
        }
    }

    /// Note an outbound message.
    pub fn record_message_sent(&mut self, now_ms: u64)
        ensures
            *final(self) == (ConnectionHealth {
                last_message_sent_ms: Some(now_ms),
                messages_sent_count: final(self).messages_sent_count,
                ..*old(self)
            }),
            final(self).messages_sent_count == if old(self).messages_sent_count < u64::MAX {
                old(self).messages_sent_count + 1
            } else {
                old(self).messages_sent_count as int
            },
    {
        self.last_message_sent_ms = Some(now_ms);
        if self.messages_sent_count < u64::MAX {
            self.messages_sent_count = self.messages_sent_count + 1;
        }
    }

    /// Note a ping going out.
    pub fn record_ping_sent(&mut self, now_ms: u64)
        ensures
            *final(self) == (ConnectionHealth { last_ping_sent_ms: Some(now_ms), ..*old(self) }),
    {
        self.last_ping_sent_ms = Some(now_ms);
    }

    /// Note a pong coming back; when a ping is outstanding and not in
    /// the future, the round trip becomes the measured latency.
    pub fn record_pong_received(&mut self, now_ms: u64)
        ensures
            final(self).last_pong_received_ms == Some(now_ms),
            final(self).latest_latency_ms == match old(self).last_ping_sent_ms {
                Some(ping) => if ping <= now_ms {
                    Some((now_ms - ping) as u64)
                } else {
                    old(self).latest_latency_ms
                },
                None => old(self).latest_latency_ms,
            },
            final(self).last_message_received_ms == old(self).last_message_received_ms,
            final(self).last_message_sent_ms == old(self).last_message_sent_ms,
            final(self).messages_received_count == old(self).messages_received_count,
            final(self).messages_sent_count == old(self).messages_sent_count,
            final(self).last_ping_sent_ms == old(self).last_ping_sent_ms,
            final(self).connection_uptime_ms == old(self).connection_uptime_ms,
            final(self).connection_established_at_ms == old(self).connection_established_at_ms,
    {
        self.last_pong_received_ms = Some(now_ms);
        if let Some(ping) = self.last_ping_sent_ms {
            if ping <= now_ms {
                self.latest_latency_ms = Some(now_ms - ping);
            }
        }
    }

    /// Whether an inbound message was seen within the timeout.
    pub fn is_healthy(&self, timeout_ms: u64, now_ms: u64) -> (r: bool)
        ensures
            r == health_is_live(*self, timeout_ms, now_ms),
    {
        match self.last_message_received_ms {
            None => false,
            Some(t) => t <= now_ms && now_ms - t < timeout_ms,
        }
    }

    /// Refresh the measured uptime from the establishment instant.
    pub fn update_uptime(&mut self, now_ms: u64)
        ensures
            final(self).connection_uptime_ms == match old(self).connection_established_at_ms {
                Some(est) => if est <= now_ms {
                    (now_ms - est) as u64
                } else {
                    old(self).connection_uptime_ms
                },
                None => old(self).connection_uptime_ms,
            },
            final(self).last_message_received_ms == old(self).last_message_received_ms,
            final(self).last_message_sent_ms == old(self).last_message_sent_ms,
            final(self).messages_received_count == old(self).messages_received_count,
            final(self).messages_sent_count == old(self).messages_sent_count,
            final(self).last_ping_sent_ms == old(self).last_ping_sent_ms,
            final(self).last_pong_received_ms == old(self).last_pong_received_ms,
            final(self).latest_latency_ms == old(self).latest_latency_ms,
            final(self).connection_established_at_ms == old(self).connection_established_at_ms,
    {
        if let Some(est) = self.connection_established_at_ms {
            if est <= now_ms {
                self.connection_uptime_ms = now_ms - est;
            }
        }
    }

    /// Note that the connection was just established.
    pub fn mark_connected(&mut self, now_ms: u64)
        ensures
            *final(self) == (ConnectionHealth {
                connection_established_at_ms: Some(now_ms),
                ..*old(self)
            }),
    {
        self.connection_established_at_ms = Some(now_ms);
    }

    /// Forget everything, as on a fresh connection.
    pub fn reset(&mut self)
        ensures
            *final(self) == ConnectionHealth::new_spec(),
    {
        *self = ConnectionHealth::new();
    }

    /// The value `new` returns.
    pub open spec fn new_spec() -> ConnectionHealth {
        ConnectionHealth {
            last_message_received_ms: None,
            last_message_sent_ms: None,
            messages_received_count: 0,
            messages_sent_count: 0,
            last_ping_sent_ms: None,
            last_pong_received_ms: None,
            latest_latency_ms: None,
            connection_uptime_ms: 0,
            connection_established_at_ms: None,
        }
    }
}

} // verus!
