//! Reconnection schedules for the NATS client and the MQTT transport.
//!
//! Both connections are retried until they succeed. After each failed attempt
//! the caller waits, then tries again:
//!
//! - NATS: 1s, 2s, 4s, 8s, 16s, then 30s for every later attempt;
//! - MQTT: 100ms, doubled after each failure, capped at 30s.
//!
//! The decision after each attempt is a function from the schedule's state and
//! the attempt's outcome to the next step; the caller performs the wait.

use vstd::prelude::*;

verus! {

/// Longest NATS retry delay, in seconds.
pub const NATS_MAX_DELAY_SECS: u64 = 30;

/// First MQTT transport retry delay, in milliseconds.
pub const TRANSPORT_INITIAL_BACKOFF_MS: u64 = 100;

/// Longest MQTT transport retry delay, in milliseconds.
pub const TRANSPORT_MAX_BACKOFF_MS: u64 = 30_000;

/// Delay before the next NATS attempt after `retry_count` earlier failures:
/// `2^retry_count` seconds for the first five, then 30 seconds.
pub open spec fn spec_nats_retry_delay(retry_count: nat) -> nat {
    if retry_count < 5 {
        vstd::arithmetic::power2::pow2(retry_count)
    } else {
        30
    }
}

/// The MQTT transport backoff that follows `backoff_ms`: doubled, at most 30s.
pub open spec fn spec_next_transport_backoff(backoff_ms: nat) -> nat {
    if 2 * backoff_ms < 30_000 {
        2 * backoff_ms
    } else {
        30_000
    }
}

/// Delay, in seconds, before the next NATS connection attempt after
/// `retry_count` failed attempts.
pub fn nats_retry_delay_secs(retry_count: u64) -> (delay: u64)
    ensures
        delay == spec_nats_retry_delay(retry_count as nat),
{
    if retry_count < 5 {
        proof {
            vstd::arithmetic::power2::lemma2_to64();
        }
        assert((1u64 << retry_count) == if retry_count == 0 {
            1u64
        } else if retry_count == 1 {
            2u64
        } else if retry_count == 2 {
            4u64
        } else if retry_count == 3 {
            8u64
        } else {
            16u64
        }) by (bit_vector)
            requires
                retry_count < 5,
        ;
        1u64 << retry_count
    } else {
        NATS_MAX_DELAY_SECS
    }
}

/// The MQTT transport backoff, in milliseconds, that follows `backoff_ms`:
/// twice as long, but never more than 30 seconds.
pub fn next_transport_backoff_ms(backoff_ms: u64) -> (next: u64)
    ensures
        next == spec_next_transport_backoff(backoff_ms as nat),
{
    if backoff_ms < TRANSPORT_MAX_BACKOFF_MS / 2 {
        backoff_ms * 2
    } else {
        TRANSPORT_MAX_BACKOFF_MS
    }
}

/// What the caller does after a connection attempt.
#[derive(Debug, Clone, Copy, PartialEq, Eq, Structural)]
pub enum ConnectStep {
    /// The attempt succeeded: stop retrying.
    Connected,
    /// The attempt failed: wait `delay`, then try again from state `next`.
    Retry { delay: u64, next: u64 },
}

/// Decide the step after a NATS connection attempt, where `retry_count` is
/// the number of earlier failures. On failure the caller waits
/// `delay` seconds and counts one more failure.
pub fn nats_connect_step(retry_count: u64, connected: bool) -> (step: ConnectStep)
    ensures
        connected ==> step == ConnectStep::Connected,
        !connected ==> step == (ConnectStep::Retry {
            delay: spec_nats_retry_delay(retry_count as nat) as u64,
            next: if retry_count < u64::MAX {
                (retry_count + 1) as u64
            } else {
                retry_count
            },
        }),
{
    if connected {
        ConnectStep::Connected
    } else {
        let next = if retry_count < u64::MAX {
            retry_count + 1
        } else {
            retry_count
        };
        ConnectStep::Retry { delay: nats_retry_delay_secs(retry_count), next }
    }
}

/// Decide the step after an MQTT transport attempt made with backoff
/// `backoff_ms`. On failure the caller waits `backoff_ms` milliseconds and
/// continues with the doubled, capped backoff.
pub fn transport_connect_step(backoff_ms: u64, connected: bool) -> (step: ConnectStep)
    ensures
        connected ==> step == ConnectStep::Connected,
        !connected ==> step == (ConnectStep::Retry {
            delay: backoff_ms,
            next: spec_next_transport_backoff(backoff_ms as nat) as u64,
        }),
{
    if connected {
        ConnectStep::Connected
    } else {
        ConnectStep::Retry { delay: backoff_ms, next: next_transport_backoff_ms(backoff_ms) }
    }
}

/// The NATS delays run 1, 2, 4, 8, 16 seconds and then stay at 30: each
/// delay is the previous one doubled, capped at 30 seconds, and every delay
/// lies between 1 and 30 seconds.
pub proof fn lemma_nats_schedule(retry_count: nat)
    ensures
        spec_nats_retry_delay(0) == 1,
        1 <= spec_nats_retry_delay(retry_count) <= NATS_MAX_DELAY_SECS,
        spec_nats_retry_delay(retry_count + 1) == if 2 * spec_nats_retry_delay(retry_count) < 30 {
            2 * spec_nats_retry_delay(retry_count)
        } else {
            30
        },
        spec_nats_retry_delay(retry_count) <= spec_nats_retry_delay(retry_count + 1),
{
    vstd::arithmetic::power2::lemma2_to64();
}

/// Started from 100ms, the MQTT backoff stays between 100ms and 30s, never
/// shrinks, and reaches 30s once it is 15s or more.
pub proof fn lemma_transport_schedule(backoff_ms: nat)
    requires
        TRANSPORT_INITIAL_BACKOFF_MS <= backoff_ms <= TRANSPORT_MAX_BACKOFF_MS,
    ensures
        TRANSPORT_INITIAL_BACKOFF_MS <= spec_next_transport_backoff(backoff_ms)
            <= TRANSPORT_MAX_BACKOFF_MS,
        backoff_ms <= spec_next_transport_backoff(backoff_ms),
        backoff_ms >= 15_000 ==> spec_next_transport_backoff(backoff_ms) == TRANSPORT_MAX_BACKOFF_MS,
{
}

/// The MQTT transport backoff after `failures` failed attempts, starting
/// from 100ms and following `transport_connect_step`.
pub open spec fn spec_transport_backoff_after(failures: nat) -> nat
    decreases failures,
{
    if failures == 0 {
        TRANSPORT_INITIAL_BACKOFF_MS as nat
    } else {
        spec_next_transport_backoff(spec_transport_backoff_after((failures - 1) as nat))
    }
}

/// The wait after the `k`-th failed MQTT transport attempt (counting from 0)
/// is `min(100ms * 2^k, 30s)`.
pub proof fn lemma_transport_backoff_closed_form(k: nat)
    ensures
        spec_transport_backoff_after(k) == if 100 * vstd::arithmetic::power2::pow2(k) < 30_000 {
            100 * vstd::arithmetic::power2::pow2(k)
        } else {
            30_000
        },
    decreases k,
{
    if k == 0 {
        vstd::arithmetic::power2::lemma2_to64();
    } else {
        let j = (k - 1) as nat;
        lemma_transport_backoff_closed_form(j);
        vstd::arithmetic::power2::lemma_pow2_unfold(k);
        vstd::arithmetic::power2::lemma_pow2_pos(j);
    }
}

} // verus!
