use srv_rs::parser::Snapshot;
use srv_rs::sensors::{Sensor, SensorType};
use srv_rs::session::{
    BootstrapError, DrainReason, FrameDecision, Session, SessionState, BATCH_SIZE,
    SOCKET_TIMEOUT_SECS,
};

fn byte_frame(ts: u32, id: u8, value: u8) -> Vec<u8> {
    let mut buf = vec![1u8];
    buf.extend_from_slice(&ts.to_le_bytes());
    buf.push(id);
    buf.push(value);
    buf
}

fn byte_catalog() -> Vec<Sensor> {
    vec![Sensor {
        small_id: 1,
        type_id: SensorType::UnsignedByte,
    }]
}

fn active_session() -> Session {
    let mut session = Session::new("thing".to_string());
    session
        .bootstrap(true, true, true, true, true)
        .expect("bootstrap should succeed");
    session
}

#[test]
fn bootstrap_happy_path_enters_active() {
    let mut session = Session::new("thing".to_string());
    assert_eq!(session.state, SessionState::Bootstrapping);
    assert_eq!(session.bootstrap(true, true, true, true, true), Ok(()));
    assert_eq!(session.state, SessionState::Active);
    assert_eq!(session.last_timestamp, 0);
    assert!(!session.announced);
}

#[test]
fn bootstrap_tolerates_address_and_emitter_failures() {
    let mut session = Session::new("thing".to_string());
    assert_eq!(session.bootstrap(true, false, true, false, true), Ok(()));
    assert_eq!(session.state, SessionState::Active);
}

#[test]
fn bootstrap_bind_failure_is_fatal() {
    let mut session = Session::new("thing".to_string());
    assert_eq!(
        session.bootstrap(false, true, true, true, true),
        Err(BootstrapError::Transport)
    );
    assert_eq!(session.state, SessionState::Closed);
}

#[test]
fn bootstrap_catalog_failure_is_fatal() {
    let mut session = Session::new("thing".to_string());
    assert_eq!(
        session.bootstrap(true, true, false, true, true),
        Err(BootstrapError::Catalog)
    );
    assert_eq!(session.state, SessionState::Closed);
}

#[test]
fn bootstrap_publisher_failure_is_fatal() {
    let mut session = Session::new("thing".to_string());
    assert_eq!(
        session.bootstrap(true, true, true, true, false),
        Err(BootstrapError::SinkStart)
    );
    assert_eq!(session.state, SessionState::Closed);
}

#[test]
fn connect_announce_twice_sends_once() {
    let mut session = active_session();
    assert!(session.announce_connected());
    assert!(!session.announce_connected());
    assert!(session.announced);
}

#[test]
fn disconnect_announce_twice_sends_once() {
    let mut session = active_session();
    session.announce_connected();
    assert!(session.announce_disconnected());
    assert!(!session.announce_disconnected());
    assert!(!session.announced);
}

#[test]
fn disconnect_without_connect_sends_nothing() {
    let mut session = active_session();
    assert!(!session.announce_disconnected());
}

#[test]
fn stale_timestamp_is_discarded() {
    let mut session = active_session();
    let catalog = byte_catalog();

    let decision = session.accept_frame(&byte_frame(5, 1, 10), &catalog);
    let snapshot = match decision {
        FrameDecision::Accept(s) => s,
        other => panic!("expected acceptance, got {other:?}"),
    };
    assert_eq!(snapshot.timestamp, 5);
    assert!(session.buffer_snapshot(snapshot).is_none());

    // Older frame: no dispatch, no buffering, floor unchanged.
    assert_eq!(
        session.accept_frame(&byte_frame(3, 1, 11), &catalog),
        FrameDecision::Discard
    );
    assert_eq!(session.last_timestamp, 5);
    assert_eq!(session.batch.len(), 1);
    assert_eq!(session.state, SessionState::Active);

    // An equal timestamp is stale too.
    assert_eq!(
        session.accept_frame(&byte_frame(5, 1, 12), &catalog),
        FrameDecision::Discard
    );
    assert_eq!(session.last_timestamp, 5);
}

#[test]
fn batch_fills_at_capacity_and_empties() {
    let mut session = active_session();
    let catalog = byte_catalog();
    let mut flushes: Vec<Vec<Snapshot>> = Vec::new();

    for ts in 1..=(BATCH_SIZE as u32) {
        match session.accept_frame(&byte_frame(ts, 1, ts as u8), &catalog) {
            FrameDecision::Accept(s) => {
                if let Some(batch) = session.buffer_snapshot(s) {
                    flushes.push(batch);
                }
            }
            other => panic!("expected acceptance, got {other:?}"),
        }
    }

    assert_eq!(flushes.len(), 1, "exactly one flush at capacity");
    assert_eq!(flushes[0].len(), BATCH_SIZE);
    for (k, snapshot) in flushes[0].iter().enumerate() {
        assert_eq!(snapshot.timestamp, k as u32 + 1);
    }
    assert!(session.batch.is_empty());
}

#[test]
fn one_short_of_capacity_never_flushes() {
    let mut session = active_session();
    let catalog = byte_catalog();

    for ts in 1..(BATCH_SIZE as u32) {
        match session.accept_frame(&byte_frame(ts, 1, 0), &catalog) {
            FrameDecision::Accept(s) => {
                assert!(session.buffer_snapshot(s).is_none(), "no flush below capacity");
            }
            other => panic!("expected acceptance, got {other:?}"),
        }
    }
    assert_eq!(session.batch.len(), BATCH_SIZE - 1);
}

#[test]
fn malformed_frame_drains_and_flushes_prior_buffer() {
    let mut session = active_session();
    let catalog = byte_catalog();
    session.announce_connected();

    match session.accept_frame(&byte_frame(1, 1, 9), &catalog) {
        FrameDecision::Accept(s) => {
            session.buffer_snapshot(s);
        }
        other => panic!("expected acceptance, got {other:?}"),
    }

    // A five-byte buffer cannot even hold the header.
    let decision = session.accept_frame(&[0, 1, 2, 3, 4], &catalog);
    assert!(matches!(decision, FrameDecision::Malformed(_)));
    assert_eq!(
        session.state,
        SessionState::Draining(DrainReason::MalformedFrame)
    );

    let (flush, send_disconnect) = session.drain();
    let batch = flush.expect("the buffered snapshot is flushed on drain");
    assert_eq!(batch.len(), 1);
    assert_eq!(batch[0].timestamp, 1);
    assert!(send_disconnect, "disconnection announced exactly once");
    assert_eq!(session.state, SessionState::Closed);
    assert!(!session.announced);
    assert!(session.batch.is_empty());
}

#[test]
fn idle_timeout_drains_partial_buffer() {
    assert_eq!(SOCKET_TIMEOUT_SECS, 60);
    let mut session = active_session();
    let catalog = byte_catalog();
    session.announce_connected();

    for ts in 1..=3u32 {
        match session.accept_frame(&byte_frame(ts, 1, 0), &catalog) {
            FrameDecision::Accept(s) => {
                session.buffer_snapshot(s);
            }
            other => panic!("expected acceptance, got {other:?}"),
        }
    }

    session.on_timeout();
    assert_eq!(session.state, SessionState::Draining(DrainReason::Idle));

    let (flush, send_disconnect) = session.drain();
    let batch = flush.expect("partial buffer is flushed");
    assert!(!batch.is_empty() && batch.len() < BATCH_SIZE);
    assert_eq!(batch.len(), 3);
    assert!(send_disconnect);
    assert_eq!(session.state, SessionState::Closed);
}

#[test]
fn sink_failure_drains_without_flush_when_empty() {
    let mut session = active_session();
    session.announce_connected();
    session.sink_failure();
    assert_eq!(
        session.state,
        SessionState::Draining(DrainReason::SinkFailure)
    );
    let (flush, send_disconnect) = session.drain();
    assert!(flush.is_none());
    assert!(send_disconnect);
}

#[test]
fn drain_without_announce_sends_no_disconnect() {
    let mut session = active_session();
    session.on_timeout();
    let (flush, send_disconnect) = session.drain();
    assert!(flush.is_none());
    assert!(!send_disconnect);
}

#[test]
fn unordered_frames_dispatch_strictly_increasing() {
    let mut session = active_session();
    let catalog = byte_catalog();
    let arrivals = [4u32, 2, 7, 7, 3, 9, 1, 12];
    let mut dispatched: Vec<u32> = Vec::new();

    for ts in arrivals {
        match session.accept_frame(&byte_frame(ts, 1, 0), &catalog) {
            FrameDecision::Accept(s) => {
                dispatched.push(s.timestamp);
                session.buffer_snapshot(s);
            }
            FrameDecision::Discard => {}
            FrameDecision::Malformed(e) => panic!("unexpected decode failure: {e:?}"),
        }
    }

    assert_eq!(dispatched, vec![4, 7, 9, 12]);
    for pair in dispatched.windows(2) {
        assert!(pair[0] < pair[1]);
    }
}
