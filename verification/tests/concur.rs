//! Tests of the worker-pool and acceptor models: graceful teardown,
//! fail-fast submission after shutdown, FIFO hand-off, and the
//! termination of the event stream once the socket is closed.

use mdserve::listener::{Acceptor, ConnectionEvent, RawAccept, ShutdownHandle};
use mdserve::pool::{PoolError, Threadpool};
use mdserve::server::handle_connections;

#[test]
fn pool_of_zero_workers_is_refused() {
    assert!(matches!(Threadpool::new(0), Err(PoolError::InvalidPoolSize)));
}

#[test]
fn execute_after_shutdown_fails_fast() {
    let mut pool = Threadpool::new(2).unwrap();
    pool.execute(1).unwrap();
    pool.shutdown();
    assert!(matches!(pool.execute(2), Err(PoolError::ShutDown)));
    // a second teardown is harmless
    pool.shutdown();
    assert!(matches!(pool.execute(3), Err(PoolError::ShutDown)));
}

#[test]
fn jobs_are_handed_out_in_submission_order() {
    let mut pool = Threadpool::new(3).unwrap();
    pool.execute(10).unwrap();
    pool.execute(20).unwrap();
    assert_eq!(pool.take_job(), Some(10));
    assert_eq!(pool.take_job(), Some(20));
    assert_eq!(pool.take_job(), None);
}

#[test]
fn all_submitted_jobs_run_exactly_once() {
    let mut pool = Threadpool::new(2).unwrap();
    for job in 1..=5u64 {
        pool.execute(job).unwrap();
    }
    pool.shutdown();
    assert_eq!(pool.pending_count(), 0);
    assert_eq!(pool.executed_jobs().clone(), vec![1, 2, 3, 4, 5]);
}

#[test]
fn event_stream_ends_at_the_closed_failure() {
    let raws = vec![
        RawAccept::Conn(1),
        RawAccept::Failure(7),
        RawAccept::ClosedFailure,
        RawAccept::Conn(2),
    ];
    let evs = Acceptor::events_of(&raws);
    assert_eq!(
        evs,
        vec![
            ConnectionEvent::Accepted(1),
            ConnectionEvent::AcceptError(7),
            ConnectionEvent::Closed,
        ]
    );
}

#[test]
fn event_stream_terminates_with_zero_connections() {
    let raws = vec![RawAccept::ClosedFailure, RawAccept::Conn(9)];
    let evs = Acceptor::events_of(&raws);
    assert_eq!(evs, vec![ConnectionEvent::Closed]);
}

#[test]
fn shutdown_handle_is_idempotent() {
    let mut handle = ShutdownHandle::new();
    assert!(!handle.shutdown());
    assert!(handle.shutdown());
    assert!(handle.shutdown());
}

#[test]
fn dispatcher_serves_each_accepted_connection_then_tears_down() {
    let mut pool = Threadpool::new(2).unwrap();
    let events = vec![
        ConnectionEvent::Accepted(1),
        ConnectionEvent::AcceptError(5),
        ConnectionEvent::Accepted(2),
        ConnectionEvent::Closed,
        ConnectionEvent::Accepted(3),
    ];
    let served = handle_connections(&events, &mut pool);
    assert_eq!(served, 2);
    assert_eq!(pool.pending_count(), 0);
    assert_eq!(pool.executed_jobs().clone(), vec![1, 2]);
    assert!(!pool.accepting());
    assert!(pool.execute(4).is_err());
}

#[test]
fn dispatcher_handles_a_stream_with_no_connections() {
    let mut pool = Threadpool::new(1).unwrap();
    let events = vec![ConnectionEvent::Closed];
    let served = handle_connections(&events, &mut pool);
    assert_eq!(served, 0);
    assert_eq!(pool.executed_jobs().clone(), Vec::<u64>::new());
    assert!(!pool.accepting());
}
