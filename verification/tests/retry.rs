use rust_edge_agent::messaging::{
    nats_connect_step, nats_retry_delay_secs, next_transport_backoff_ms, transport_connect_step,
    ConnectStep, TRANSPORT_INITIAL_BACKOFF_MS,
};

#[test]
fn nats_delays_double_then_cap() {
    let delays: Vec<u64> = (0..8).map(nats_retry_delay_secs).collect();
    assert_eq!(delays, vec![1, 2, 4, 8, 16, 30, 30, 30]);
    assert_eq!(nats_retry_delay_secs(u64::MAX), 30);
}

#[test]
fn transport_backoff_doubles_then_caps() {
    let mut backoff = TRANSPORT_INITIAL_BACKOFF_MS;
    let mut seen = vec![backoff];
    for _ in 0..10 {
        backoff = next_transport_backoff_ms(backoff);
        seen.push(backoff);
    }
    assert_eq!(
        seen,
        vec![100, 200, 400, 800, 1600, 3200, 6400, 12800, 25600, 30000, 30000]
    );
    assert_eq!(next_transport_backoff_ms(14_999), 29_998);
    assert_eq!(next_transport_backoff_ms(15_000), 30_000);
    assert_eq!(next_transport_backoff_ms(u64::MAX), 30_000);
}

#[test]
fn connect_steps() {
    assert_eq!(nats_connect_step(3, true), ConnectStep::Connected);
    assert_eq!(nats_connect_step(3, false), ConnectStep::Retry { delay: 8, next: 4 });
    assert_eq!(nats_connect_step(7, false), ConnectStep::Retry { delay: 30, next: 8 });
    assert_eq!(
        nats_connect_step(u64::MAX, false),
        ConnectStep::Retry { delay: 30, next: u64::MAX }
    );
    assert_eq!(transport_connect_step(100, true), ConnectStep::Connected);
    assert_eq!(
        transport_connect_step(100, false),
        ConnectStep::Retry { delay: 100, next: 200 }
    );
    assert_eq!(
        transport_connect_step(20_000, false),
        ConnectStep::Retry { delay: 20_000, next: 30_000 }
    );
}
