//! Resilient market-data ingestion core: a streaming client with
//! reconnection and failover, a TTL-bound cache coordinator, and a
//! backoff and failure policy, all specified and verified.
//!
//! Instants are carried as milliseconds (`u64`) and prices as integer
//! hundredths of the quote currency, so that every rule about them is
//! exact arithmetic.

pub mod cache;
pub mod client;
pub mod endpoint;
pub mod health;
pub mod messages;
pub mod policy;
pub mod strutil;
pub mod validation;
pub mod settings;
pub mod theme;

use vstd::prelude::*;

verus! {

use vstd::arithmetic::mul::lemma_mul_inequality;

/// 2 to the power `e`.
pub open spec fn pow2_spec(e: nat) -> int
    decreases e,
{
    if e == 0 {
        1
    } else {
        2 * pow2_spec((e - 1) as nat)
    }
}

/// Exponential backoff delay: `base * 2^attempts`, capped at `max_delay`.
pub open spec fn backoff_delay_spec(base: u64, attempts: u32, max_delay: u64) -> int {
    if base * pow2_spec(attempts as nat) >= max_delay as int {
        max_delay as int
    } else {
        base * pow2_spec(attempts as nat)
    }
}

/// Compute the reconnect delay for the given attempt count:
/// the base delay doubled per attempt, saturating at `max_delay`.
pub fn backoff_delay(base: u64, attempts: u32, max_delay: u64) -> (delay: u64)
    requires
        base >= 1,
    ensures
        delay == backoff_delay_spec(base, attempts, max_delay),
        delay <= max_delay,
{
    let mut delay: u64 = base;
    let mut i: u32 = 0;
    while i < attempts
        invariant
            base >= 1,
            i <= attempts,
            delay as int == base * pow2_spec(i as nat) || (delay == max_delay
                && base * pow2_spec(attempts as nat) >= max_delay),
        decreases attempts - i,
    {
        proof {
            pow2_positive(i as nat);
        }
        if delay >= max_delay {
            proof {
                if delay as int == base * pow2_spec(i as nat) {
                    pow2_monotone(i as nat, attempts as nat);
                    lemma_mul_inequality(
                        pow2_spec(i as nat),
                        pow2_spec(attempts as nat),
                        base as int,
                    );
                }
            }
            delay = max_delay;
            i = attempts;
        } else if delay > u64::MAX / 2 {
            proof {
                assert(pow2_spec((i + 1) as nat) == 2 * pow2_spec(i as nat));
                assert(base * pow2_spec((i + 1) as nat) == 2 * (base * pow2_spec(
                    i as nat,
                ))) by (nonlinear_arith)
                    requires
                        pow2_spec((i + 1) as nat) == 2 * pow2_spec(i as nat),
                ;
                pow2_monotone((i + 1) as nat, attempts as nat);
                lemma_mul_inequality(
                    pow2_spec((i + 1) as nat),
                    pow2_spec(attempts as nat),
                    base as int,
                );
            }
            delay = max_delay;
            i = attempts;
        } else {
            proof {
                assert(pow2_spec((i + 1) as nat) == 2 * pow2_spec(i as nat));
                assert(base * pow2_spec((i + 1) as nat) == 2 * (base * pow2_spec(
                    i as nat,
                ))) by (nonlinear_arith)
                    requires
                        pow2_spec((i + 1) as nat) == 2 * pow2_spec(i as nat),
                ;
            }
            delay = delay * 2;
            i = i + 1;
        }
    }
    if delay >= max_delay {
        max_delay
    } else {
        delay
    }
}

/// Backoff monotonicity: with more recorded attempts the computed delay
/// never shrinks, and it is always bounded by the configured maximum.
pub proof fn law_backoff_monotone(base: u64, a1: u32, a2: u32, max_delay: u64)
    requires
        base >= 1,
        a1 <= a2,
    ensures
        backoff_delay_spec(base, a1, max_delay) <= backoff_delay_spec(base, a2, max_delay),
        backoff_delay_spec(base, a2, max_delay) <= max_delay,
{
    pow2_positive(a1 as nat);
    pow2_positive(a2 as nat);
    pow2_monotone(a1 as nat, a2 as nat);
    assert(base * pow2_spec(a1 as nat) <= base * pow2_spec(a2 as nat)) by (nonlinear_arith)
        requires
            pow2_spec(a1 as nat) <= pow2_spec(a2 as nat),
            base >= 1,
    ;
}

proof fn pow2_positive(e: nat)
    ensures
        pow2_spec(e) >= 1,
    decreases e,
{
    if e > 0 {
        pow2_positive((e - 1) as nat);
    }
}

proof fn pow2_monotone(e1: nat, e2: nat)
    requires
        e1 <= e2,
    ensures
        pow2_spec(e1) <= pow2_spec(e2),
    decreases e2,
{
    if e1 < e2 {
        pow2_positive(e1);
        pow2_monotone(e1, (e2 - 1) as nat);
        pow2_positive((e2 - 1) as nat);
    }
}

} // verus!

