//! The per-connection session state machine.
//!
//! A session owns one device's channel and walks `Bootstrapping -> Active ->
//! Draining -> Closed`. In `Active` it filters frames by timestamp, hands
//! accepted snapshots out for live emission, and gathers them into batches
//! of `BATCH_SIZE` for durable publication. The functions here make every
//! decision of that lifecycle; performing the I/O that the decisions call
//! for (receiving datagrams, talking to the sinks) is the caller's part, and
//! the outcome of each such action is handed back in as a plain value.

use vstd::prelude::*;

use crate::parser::{spec_parse, ParseError, Snapshot};
use crate::sensors::Sensor;

verus! {

/// A full batch: reaching this many buffered snapshots triggers an
/// immediate, synchronous flush.
pub const BATCH_SIZE: usize = 25;

/// Seconds of inactivity after which a session drains with reason `Idle`.
pub const SOCKET_TIMEOUT_SECS: u64 = 60;

/// Why an `Active` session started draining.
#[derive(Clone, Copy, PartialEq, Eq, Structural, Debug)]
pub enum DrainReason {
    /// No datagram arrived within the inactivity timeout.
    Idle,
    /// A frame failed to decode; the connection is not recoverable.
    MalformedFrame,
    /// A downstream sink refused a dispatch.
    SinkFailure,
}

/// The phases of one session, in the order they are entered. `Closed` is
/// terminal: no transition leaves it.
#[derive(Clone, Copy, PartialEq, Eq, Structural, Debug)]
pub enum SessionState {
    Bootstrapping,
    Active,
    Draining(DrainReason),
    Closed,
}

/// What stopped a session from ever entering `Active`.
#[derive(Clone, Copy, PartialEq, Eq, Structural, Debug)]
pub enum BootstrapError {
    /// The transport channel could not be bound.
    Transport,
    /// The sensor catalog could not be fetched.
    Catalog,
    /// The durable publisher could not be connected.
    SinkStart,
}

/// What one received frame led to.
#[derive(PartialEq, Eq, Debug)]
pub enum FrameDecision {
    /// The frame's timestamp was not newer than the last accepted one: no
    /// dispatch, no buffering, no state change.
    Discard,
    /// The snapshot to dispatch to the live emitter and then buffer.
    Accept(Snapshot),
    /// The frame failed to decode; the session is now draining.
    Malformed(ParseError),
}

/// Strictly increasing, element by element.
pub open spec fn strictly_increasing(s: Seq<u32>) -> bool {
    forall|i: int, j: int| 0 <= i < j < s.len() ==> s[i] < s[j]
}

/// The connect-announce gate: what one step sends downstream and the flag
/// it leaves behind, given the flag it found.
pub open spec fn spec_announce_connected(announced: bool) -> (bool, bool) {
    (!announced, true)
}

/// The disconnect-announce gate, the mirror of `spec_announce_connected`.
pub open spec fn spec_announce_disconnected(announced: bool) -> (bool, bool) {
    (announced, false)
}

/// One buffering step: the buffer after appending `s`, and the flushed
/// batch if the append reached capacity.
pub open spec fn spec_buffer_step(batch: Seq<Snapshot>, s: Snapshot) -> (
    Seq<Snapshot>,
    Option<Seq<Snapshot>>,
) {
    let b = batch.push(s);
    if b.len() == BATCH_SIZE {
        (Seq::empty(), Some(b))
    } else {
        (b, None)
    }
}

/// Buffering a whole run of snapshots: the final buffer and every batch
/// flushed along the way, in order.
pub open spec fn spec_run_buffer(batch: Seq<Snapshot>, snaps: Seq<Snapshot>) -> (
    Seq<Snapshot>,
    Seq<Seq<Snapshot>>,
)
    decreases snaps.len(),
{
    if snaps.len() == 0 {
        (batch, Seq::empty())
    } else {
        let stepped = spec_buffer_step(batch, snaps[0]);
        let rest = spec_run_buffer(stepped.0, snaps.skip(1));
        (
            rest.0,
            match stepped.1 {
                Some(f) => seq![f] + rest.1,
                None => rest.1,
            },
        )
    }
}

/// The timestamps a session dispatches when frames bearing `ts`, in that
/// arrival order, reach a session whose ordering floor is `last`.
pub open spec fn spec_dispatched(ts: Seq<u32>, last: u32) -> Seq<u32>
    decreases ts.len(),
{
    if ts.len() == 0 {
        Seq::empty()
    } else if ts[0] > last {
        seq![ts[0]] + spec_dispatched(ts.skip(1), ts[0])
    } else {
        spec_dispatched(ts.skip(1), last)
    }
}

/// Ordering monotonicity law: however the arriving frames are ordered, the
/// timestamps dispatched downstream are strictly increasing, and all of
/// them lie above the floor the run started from.
pub proof fn lemma_ordering_monotonicity(ts: Seq<u32>, last: u32)
    ensures
        strictly_increasing(spec_dispatched(ts, last)),
        forall|k: int|
            0 <= k < spec_dispatched(ts, last).len() ==> spec_dispatched(ts, last)[k] > last,
    decreases ts.len(),
{
    if ts.len() == 0 {
    } else if ts[0] > last {
        lemma_ordering_monotonicity(ts.skip(1), ts[0]);
        let d = spec_dispatched(ts, last);
        let rest = spec_dispatched(ts.skip(1), ts[0]);
        assert(d == seq![ts[0]] + rest);
        assert forall|k: int| 0 <= k < d.len() implies d[k] > last by {
            if k > 0 {
                assert(d[k] == rest[k - 1]);
            }
        }
        assert forall|i: int, j: int| 0 <= i < j < d.len() implies d[i] < d[j] by {
            assert(d[j] == rest[j - 1]);
            if i > 0 {
                assert(d[i] == rest[i - 1]);
            }
        }
    } else {
        lemma_ordering_monotonicity(ts.skip(1), last);
        assert(spec_dispatched(ts, last) == spec_dispatched(ts.skip(1), last));
    }
}

/// Ordering monotonicity, as every session run maintains it: the history of
/// timestamps a well-formed session has dispatched is strictly increasing,
/// and none of them lies above the session's ordering floor.
pub proof fn lemma_session_dispatch_monotone(s: &Session)
    requires
        s.wf(),
    ensures
        strictly_increasing(s.dispatched@),
        forall|k: int| 0 <= k < s.dispatched@.len() ==> s.dispatched@[k] <= s.last_timestamp,
{
    assert forall|k: int| 0 <= k < s.dispatched@.len() implies s.dispatched@[k]
        <= s.last_timestamp by {
        if k < s.dispatched@.len() - 1 {
            assert(s.dispatched@[k] < s.dispatched@[s.dispatched@.len() - 1]);
        }
    }
}

/// Idempotent lifecycle law: two connect-announce steps in a row send
/// exactly one "connected" signal when the session was unannounced, and
/// none when it already was; two disconnect steps mirror that.
pub proof fn lemma_idempotent_lifecycle(announced: bool)
    ensures
        ({
            let (s1, a1) = spec_announce_connected(announced);
            let (s2, _) = spec_announce_connected(a1);
            (if s1 {
                1int
            } else {
                0int
            }) + (if s2 {
                1int
            } else {
                0int
            }) == (if announced {
                0int
            } else {
                1int
            })
        }),
        ({
            let (d1, b1) = spec_announce_disconnected(announced);
            let (d2, _) = spec_announce_disconnected(b1);
            (if d1 {
                1int
            } else {
                0int
            }) + (if d2 {
                1int
            } else {
                0int
            }) == (if announced {
                1int
            } else {
                0int
            })
        }),
{
}

/// Batch capacity law: running snapshots into a buffer that exactly fills
/// it flushes once, with everything in arrival order, and leaves the buffer
/// empty; a run that stops short of capacity flushes nothing and keeps
/// everything buffered.
pub proof fn lemma_batch_capacity(batch: Seq<Snapshot>, snaps: Seq<Snapshot>)
    requires
        batch.len() + snaps.len() <= BATCH_SIZE,
    ensures
        batch.len() + snaps.len() == BATCH_SIZE && snaps.len() > 0 ==> spec_run_buffer(
            batch,
            snaps,
        ) == (Seq::<Snapshot>::empty(), seq![batch + snaps]),
        batch.len() + snaps.len() < BATCH_SIZE ==> spec_run_buffer(batch, snaps) == (
            batch + snaps,
            Seq::<Seq<Snapshot>>::empty(),
        ),
    decreases snaps.len(),
{
    if snaps.len() == 0 {
        assert(batch + snaps =~= batch);
    } else {
        let stepped = spec_buffer_step(batch, snaps[0]);
        lemma_batch_capacity(stepped.0, snaps.skip(1));
        if batch.len() + 1 == BATCH_SIZE {
            assert(snaps.len() == 1);
            assert(batch.push(snaps[0]) =~= batch + snaps);
            assert(spec_run_buffer(stepped.0, snaps.skip(1)) == (
                Seq::<Snapshot>::empty(),
                Seq::<Seq<Snapshot>>::empty(),
            ));
            assert(seq![batch + snaps] + Seq::<Seq<Snapshot>>::empty() =~= seq![batch + snaps]);
        } else {
            assert(batch.push(snaps[0]) + snaps.skip(1) =~= batch + snaps);
        }
    }
}

/// The transient, single-owner state of one device connection.
pub struct Session {
    /// The device this session serves.
    pub thing_id: String,
    /// The ordering floor: the timestamp of the last accepted snapshot, 0
    /// until the first one.
    pub last_timestamp: u32,
    /// Accepted snapshots not yet flushed to the durable store.
    pub batch: Vec<Snapshot>,
    /// Whether the "connected" lifecycle signal has gone downstream.
    pub announced: bool,
    /// Where in the lifecycle this session stands.
    pub state: SessionState,
    /// Every timestamp this session ever dispatched, in dispatch order.
    pub dispatched: Ghost<Seq<u32>>,
}

impl Session {
    /// The session invariant: the buffer stays below capacity (reaching it
    /// flushes synchronously), and the dispatch history is strictly
    /// increasing with the ordering floor at its end.
    pub open spec fn wf(&self) -> bool {
        &&& self.batch@.len() < BATCH_SIZE
        &&& strictly_increasing(self.dispatched@)
        &&& (self.dispatched@.len() > 0 ==> self.dispatched@.last() == self.last_timestamp)
        &&& (self.dispatched@.len() == 0 ==> self.last_timestamp == 0)
    }

    /// A fresh session for one device, ready to bootstrap.
    pub fn new(thing_id: String) -> (s: Session)
        ensures
            s.wf(),
            s.state == SessionState::Bootstrapping,
            s.last_timestamp == 0,
            s.batch@.len() == 0,
            s.announced == false,
            s.thing_id@ == thing_id@,
            s.dispatched@ == Seq::<u32>::empty(),
    {
        Session {
            thing_id,
            last_timestamp: 0,
            batch: Vec::new(),
            announced: false,
            state: SessionState::Bootstrapping,
            dispatched: Ghost(Seq::empty()),
        }
    }

    /// Settle the bootstrap outcome from what each startup step reported.
    ///
    /// The asymmetry is deliberate and load-bearing: failing to bind the
    /// channel, to fetch the catalog or to connect the durable publisher is
    /// fatal, while failing to deliver the channel address back to the
    /// caller or to start the live emitter is tolerated — those two
    /// outcomes are accepted here and do not appear in the result at all.
    pub fn bootstrap(
        &mut self,
        bound: bool,
        address_delivered: bool,
        catalog_ok: bool,
        emitter_ok: bool,
        publisher_ok: bool,
    ) -> (r: Result<(), BootstrapError>)
        requires
            old(self).state == SessionState::Bootstrapping,
            old(self).wf(),
        ensures
            final(self).wf(),
            r is Ok <==> (bound && catalog_ok && publisher_ok),
            bound && catalog_ok && publisher_ok ==> final(self).state == SessionState::Active,
            !(bound && catalog_ok && publisher_ok) ==> final(self).state == SessionState::Closed,
            !bound ==> r == Err::<(), BootstrapError>(BootstrapError::Transport),
            bound && !catalog_ok ==> r == Err::<(), BootstrapError>(BootstrapError::Catalog),
            bound && catalog_ok && !publisher_ok ==> r == Err::<(), BootstrapError>(
                BootstrapError::SinkStart,
            ),
            final(self).last_timestamp == old(self).last_timestamp,
            final(self).batch@ == old(self).batch@,
            final(self).announced == old(self).announced,
            final(self).thing_id@ == old(self).thing_id@,
            final(self).dispatched@ == old(self).dispatched@,
    {
        let _ = address_delivered;
        let _ = emitter_ok;
        if !bound {
            self.state = SessionState::Closed;
            return Err(BootstrapError::Transport);
        }
        if !catalog_ok {
            self.state = SessionState::Closed;
            return Err(BootstrapError::Catalog);
        }
        if !publisher_ok {
            self.state = SessionState::Closed;
            return Err(BootstrapError::SinkStart);
        }
        self.state = SessionState::Active;
        Ok(())
    }

    /// The connect-announce gate: whether the "connected" signal is owed
    /// downstream. Idempotent: only the first call of a session's lifetime
    /// returns true.
    pub fn announce_connected(&mut self) -> (send: bool)
        requires
            old(self).wf(),
        ensures
            final(self).wf(),
            (send, final(self).announced) == spec_announce_connected(old(self).announced),
            final(self).state == old(self).state,
            final(self).last_timestamp == old(self).last_timestamp,
            final(self).batch@ == old(self).batch@,
            final(self).thing_id@ == old(self).thing_id@,
            final(self).dispatched@ == old(self).dispatched@,
    {
        let send = !self.announced;
        self.announced = true;
        send
    }

    /// The disconnect-announce gate: whether the "disconnected" signal is
    /// owed downstream. Idempotent: true only when a "connected" signal
    /// went out and no "disconnected" has followed it yet.
    pub fn announce_disconnected(&mut self) -> (send: bool)
        requires
            old(self).wf(),
        ensures
            final(self).wf(),
            (send, final(self).announced) == spec_announce_disconnected(old(self).announced),
            final(self).state == old(self).state,
            final(self).last_timestamp == old(self).last_timestamp,
            final(self).batch@ == old(self).batch@,
            final(self).thing_id@ == old(self).thing_id@,
            final(self).dispatched@ == old(self).dispatched@,
    {
        let send = self.announced;
        self.announced = false;
        send
    }

    /// Decode one received frame and apply the ordering filter.
    ///
    /// A decode failure turns the session to `Draining(MalformedFrame)`. A
    /// stale timestamp (not strictly above the floor) is discarded with no
    /// effect at all. Otherwise the floor rises to the frame's timestamp
    /// and the snapshot is returned for dispatch; the caller emits it, then
    /// hands it to `buffer_snapshot`.
    pub fn accept_frame(&mut self, buf: &[u8], sensors: &[Sensor]) -> (r: FrameDecision)
        requires
            old(self).state == SessionState::Active,
            old(self).wf(),
        ensures
            final(self).wf(),
            final(self).batch@ == old(self).batch@,
            final(self).announced == old(self).announced,
            final(self).thing_id@ == old(self).thing_id@,
            match spec_parse(buf@, sensors@) {
                Err(e) => r == FrameDecision::Malformed(e)
                    && final(self).state == SessionState::Draining(DrainReason::MalformedFrame)
                    && final(self).last_timestamp == old(self).last_timestamp
                    && final(self).dispatched@ == old(self).dispatched@,
                Ok(p) => if p.0 <= old(self).last_timestamp {
                    r == FrameDecision::Discard && final(self).state == SessionState::Active
                        && final(self).last_timestamp == old(self).last_timestamp
                        && final(self).dispatched@ == old(self).dispatched@
                } else {
                    r matches FrameDecision::Accept(s) && s.timestamp == p.0 && s.readings@ == p.1
                        && final(self).state == SessionState::Active && final(self).last_timestamp
                        == p.0 && final(self).dispatched@ == old(self).dispatched@.push(p.0)
                },
            },
    {
        match crate::parser::parse_message(buf, sensors) {
            Err(e) => {
                self.state = SessionState::Draining(DrainReason::MalformedFrame);
                FrameDecision::Malformed(e)
            },
            Ok((ts, snapshot)) => {
                if ts <= self.last_timestamp {
                    FrameDecision::Discard
                } else {
                    proof {
                        let d = self.dispatched@;
                        assert forall|k: int| 0 <= k < d.len() implies d[k] < ts by {
                            if k < d.len() - 1 {
                                assert(d[k] < d[d.len() - 1]);
                            }
                        }
                    }
                    self.last_timestamp = ts;
                    self.dispatched = Ghost(self.dispatched@.push(ts));
                    FrameDecision::Accept(snapshot)
                }
            },
        }
    }

    /// Append an accepted, already-emitted snapshot to the batch buffer.
    /// Reaching capacity hands the full batch back for synchronous durable
    /// publication and empties the buffer.
    pub fn buffer_snapshot(&mut self, snapshot: Snapshot) -> (flushed: Option<Vec<Snapshot>>)
        requires
            old(self).state == SessionState::Active,
            old(self).wf(),
        ensures
            final(self).wf(),
            final(self).batch@ == spec_buffer_step(old(self).batch@, snapshot).0,
            match spec_buffer_step(old(self).batch@, snapshot).1 {
                Some(f) => flushed matches Some(v) && v@ == f,
                None => flushed is None,
            },
            flushed is Some <==> old(self).batch@.len() + 1 == BATCH_SIZE,
            final(self).state == old(self).state,
            final(self).last_timestamp == old(self).last_timestamp,
            final(self).announced == old(self).announced,
            final(self).thing_id@ == old(self).thing_id@,
            final(self).dispatched@ == old(self).dispatched@,
    {
        self.batch.push(snapshot);
        if self.batch.len() == BATCH_SIZE {
            let mut out: Vec<Snapshot> = Vec::new();
            core::mem::swap(&mut out, &mut self.batch);
            Some(out)
        } else {
            None
        }
    }

    /// The inactivity timeout elapsed with no datagram: start draining.
    pub fn on_timeout(&mut self)
        requires
            old(self).state == SessionState::Active,
            old(self).wf(),
        ensures
            final(self).wf(),
            final(self).state == SessionState::Draining(DrainReason::Idle),
            final(self).last_timestamp == old(self).last_timestamp,
            final(self).batch@ == old(self).batch@,
            final(self).announced == old(self).announced,
            final(self).thing_id@ == old(self).thing_id@,
            final(self).dispatched@ == old(self).dispatched@,
    {
        self.state = SessionState::Draining(DrainReason::Idle);
    }

    /// A sink refused a dispatch: the session is fatally done, drain it.
    pub fn sink_failure(&mut self)
        requires
            old(self).state == SessionState::Active,
            old(self).wf(),
        ensures
            final(self).wf(),
            final(self).state == SessionState::Draining(DrainReason::SinkFailure),
            final(self).last_timestamp == old(self).last_timestamp,
            final(self).batch@ == old(self).batch@,
            final(self).announced == old(self).announced,
            final(self).thing_id@ == old(self).thing_id@,
            final(self).dispatched@ == old(self).dispatched@,
    {
        self.state = SessionState::Draining(DrainReason::SinkFailure);
    }

    /// Wind the session down: hand back whatever is still buffered (to be
    /// published), say whether a "disconnected" signal is owed, and close.
    /// Both steps happen however draining was entered.
    pub fn drain(&mut self) -> (r: (Option<Vec<Snapshot>>, bool))
        requires
            old(self).state matches SessionState::Draining(_),
            old(self).wf(),
        ensures
            final(self).wf(),
            final(self).state == SessionState::Closed,
            final(self).batch@.len() == 0,
            final(self).announced == false,
            r.1 == old(self).announced,
            old(self).batch@.len() > 0 ==> (r.0 matches Some(v) && v@ == old(self).batch@),
            old(self).batch@.len() == 0 ==> r.0 is None,
            final(self).last_timestamp == old(self).last_timestamp,
            final(self).thing_id@ == old(self).thing_id@,
            final(self).dispatched@ == old(self).dispatched@,
    {
        let flush = if self.batch.len() > 0 {
            let mut out: Vec<Snapshot> = Vec::new();
            core::mem::swap(&mut out, &mut self.batch);
            Some(out)
        } else {
            None
        };
        let send = self.announce_disconnected();
        self.state = SessionState::Closed;
        (flush, send)
    }
}

} // verus!
