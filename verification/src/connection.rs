//! The WebSocket connection's state, and the decisions taken on it: whether
//! to connect, to disconnect, to reconnect, whether a message may be sent.

use vstd::prelude::*;
use crate::constants::ConnectionState;
use crate::error::RealtimeError;
use crate::timer::{Timer, TimerView, delay_for, duration_from_millis};
use std::time::Duration;

verus! {

/// The writer half of a connection (`W`) and the connection's state.
pub struct ConnectionManager<W> {
    writer: Option<W>,
    state: ConnectionState,
}

/// The mathematical value of a connection manager.
pub struct ConnectionView<W> {
    pub writer: Option<W>,
    pub state: ConnectionState,
}

impl<W> View for ConnectionManager<W> {
    type V = ConnectionView<W>;

    closed spec fn view(&self) -> ConnectionView<W> {
        ConnectionView { writer: self.writer, state: self.state }
    }
}

impl<W> ConnectionManager<W> {
    /// A closed connection without writer.
    pub fn new() -> (r: ConnectionManager<W>)
        ensures
            r@.writer is None,
            r@.state == ConnectionState::Closed,
    {
        ConnectionManager { writer: None, state: ConnectionState::Closed }
    }

    /// Sets the writer (after a successful connection).
    pub fn set_writer(&mut self, writer: W)
        ensures
            final(self)@ == (ConnectionView { writer: Some(writer), ..old(self)@ }),
    {
        self.writer = Some(writer);
    }

    /// The writer, if any.
    pub fn writer_mut(&mut self) -> (r: Option<&mut W>)
        ensures
            r is Some <==> old(self)@.writer is Some,
            r matches Some(w) ==> *w == old(self)@.writer->0 && final(self)@ == (ConnectionView {
                writer: Some(*final(w)),
                ..old(self)@
            }),
            r is None ==> final(self)@ == old(self)@,
    {
        self.writer.as_mut()
    }

    /// Drops the writer.
    pub fn clear_writer(&mut self)
        ensures
            final(self)@ == (ConnectionView::<W> { writer: None, ..old(self)@ }),
    {
        self.writer = None;
    }

    /// The current state.
    pub fn state(&self) -> (r: ConnectionState)
        ensures
            r == self@.state,
    {
        self.state
    }

    /// Sets the state.
    pub fn set_state(&mut self, new_state: ConnectionState)
        ensures
            final(self)@ == (ConnectionView { state: new_state, ..old(self)@ }),
    {
        self.state = new_state;
    }

    /// Starts connecting: unless the connection is open or opening, marks
    /// it connecting. `false` means there is nothing to do.
    pub fn begin_connect(&mut self) -> (r: bool)
        ensures
            r == !(old(self)@.state == ConnectionState::Open || old(self)@.state == ConnectionState::Connecting),
            r ==> final(self)@ == (ConnectionView { state: ConnectionState::Connecting, ..old(self)@ }),
            !r ==> final(self)@ == old(self)@,
    {
        if self.state == ConnectionState::Open || self.state == ConnectionState::Connecting {
            return false;
        }
        self.state = ConnectionState::Connecting;
        true
    }

    /// A connection attempt that failed: the connection is closed again, so
    /// that a later attempt is made.
    pub fn fail_connect(&mut self)
        ensures
            final(self)@ == (ConnectionView { state: ConnectionState::Closed, ..old(self)@ }),
    {
        self.state = ConnectionState::Closed;
    }

    /// Whether the connection is open.
    pub fn is_connected(&self) -> (r: bool)
        ensures
            r == (self@.state == ConnectionState::Open),
    {
        self.state == ConnectionState::Open
    }
}

/// A connection attempt is needed unless the connection is open or opening.
pub fn connect_needed(state: ConnectionState) -> (r: bool)
    ensures
        r == !(state == ConnectionState::Open || state == ConnectionState::Connecting),
{
    !(state == ConnectionState::Open || state == ConnectionState::Connecting)
}

/// A disconnect has something to do unless the connection is closed.
pub fn disconnect_needed(state: ConnectionState) -> (r: bool)
    ensures
        r == (state != ConnectionState::Closed),
{
    state != ConnectionState::Closed
}

/// The reconnection policy: reconnect after a close that was not asked for.
pub open spec fn wants_reconnect(state: ConnectionState, was_manual: bool) -> bool {
    state == ConnectionState::Closed && !was_manual
}

/// The reconnection watcher reconnects after a close that was not asked for.
pub fn reconnect_wanted(state: ConnectionState, was_manual: bool) -> (r: bool)
    ensures
        r == wants_reconnect(state, was_manual),
{
    state == ConnectionState::Closed && !was_manual
}

/// A message may be pushed only over an open connection.
pub fn push_allowed(is_connected: bool) -> (r: Result<(), RealtimeError>)
    ensures
        r is Ok <==> is_connected,
        r matches Err(e) ==> e is NotConnected,
{
    if !is_connected {
        return Err(RealtimeError::NotConnected);
    }
    Ok(())
}

/// What the read task received from the WebSocket.
#[derive(Debug, Clone, Copy, PartialEq, Eq, Structural)]
pub enum FrameKind {
    Text,
    Binary,
    Ping,
    Pong,
    Close,
    Raw,
    /// Reading failed.
    ReadError,
}

/// What the read task does with what it received.
#[derive(Debug, Clone, Copy, PartialEq, Eq, Structural)]
pub enum ReadAction {
    /// Decode the text as a message and route it.
    Decode,
    /// Mark the connection closed and stop reading.
    CloseAndStop,
    /// Nothing: read on.
    Skip,
}

/// A text frame is a message to decode and route; a close frame or a read
/// error ends the connection; any other frame is passed over.
pub fn read_step(kind: FrameKind) -> (r: ReadAction)
    ensures
        kind == FrameKind::Text ==> r == ReadAction::Decode,
        kind == FrameKind::Close || kind == FrameKind::ReadError ==> r == ReadAction::CloseAndStop,
        !(kind == FrameKind::Text || kind == FrameKind::Close || kind == FrameKind::ReadError) ==> r
            == ReadAction::Skip,
{
    match kind {
        FrameKind::Text => ReadAction::Decode,
        FrameKind::Close => ReadAction::CloseAndStop,
        FrameKind::ReadError => ReadAction::CloseAndStop,
        _ => ReadAction::Skip,
    }
}

/// What the reconnection procedure learns.
pub enum ReconnectEvent {
    /// It starts, after a close that was manual or not.
    Started(bool),
    /// The connection's state was read.
    StateRead(ConnectionState),
    /// A connection attempt succeeded.
    Connected,
    /// A connection attempt failed.
    ConnectFailed,
    /// The delay after a failed attempt has passed.
    Waited,
}

/// What the reconnection procedure does next.
pub enum ReconnectAction {
    /// Give up, or there is nothing to do.
    Stop,
    /// Read the connection's state.
    ReadState,
    /// Try to connect.
    Connect,
    /// Join the channels again, then stop.
    Resubscribe,
    /// Wait this long before looking again.
    Wait(Duration),
}

/// One step of reconnecting, with the timer before and after: nothing after
/// a manual disconnect; otherwise connect unless the connection is open or
/// opening, join the channels again once connected, and after each failed
/// attempt wait the timer's next delay before looking again.
pub open spec fn reconnect_next(e: ReconnectEvent, t: TimerView) -> (ReconnectAction, TimerView) {
    match e {
        ReconnectEvent::Started(manual) => (
            if manual {
                ReconnectAction::Stop
            } else {
                ReconnectAction::ReadState
            },
            t,
        ),
        ReconnectEvent::StateRead(state) => (
            if state == ConnectionState::Open || state == ConnectionState::Connecting {
                ReconnectAction::Stop
            } else {
                ReconnectAction::Connect
            },
            t,
        ),
        ReconnectEvent::Connected => (ReconnectAction::Resubscribe, t),
        ReconnectEvent::ConnectFailed => (
            ReconnectAction::Wait(duration_from_millis(delay_for(t.intervals, t.attempts))),
            TimerView { attempts: t.attempts + 1, intervals: t.intervals },
        ),
        ReconnectEvent::Waited => (ReconnectAction::ReadState, t),
    }
}

/// The actions a run of events leads to, and the timer after it.
pub open spec fn reconnect_run(events: Seq<ReconnectEvent>, t: TimerView) -> (Seq<ReconnectAction>, TimerView)
    decreases events.len(),
{
    if events.len() == 0 {
        (Seq::empty(), t)
    } else {
        let (a, t1) = reconnect_next(events[0], t);
        let (rest, t2) = reconnect_run(events.drop_first(), t1);
        (seq![a] + rest, t2)
    }
}

/// `k` failed rounds: the state read as closed, the attempt failed, the
/// delay waited.
pub open spec fn failing_rounds(k: nat) -> Seq<ReconnectEvent>
    decreases k,
{
    if k == 0 {
        Seq::empty()
    } else {
        seq![
            ReconnectEvent::StateRead(ConnectionState::Closed),
            ReconnectEvent::ConnectFailed,
            ReconnectEvent::Waited,
        ] + failing_rounds((k - 1) as nat)
    }
}

/// Running two runs one after the other.
proof fn lemma_run_concat(a: Seq<ReconnectEvent>, b: Seq<ReconnectEvent>, t: TimerView)
    ensures
        reconnect_run(a + b, t) == ({
            let (x, t1) = reconnect_run(a, t);
            let (y, t2) = reconnect_run(b, t1);
            (x + y, t2)
        }),
    decreases a.len(),
{
    if a.len() == 0 {
        assert(a + b =~= b);
        assert(Seq::<ReconnectAction>::empty() + reconnect_run(b, t).0 =~= reconnect_run(b, t).0);
    } else {
        assert((a + b)[0] == a[0]);
        assert((a + b).drop_first() =~= a.drop_first() + b);
        let (a0, t1) = reconnect_next(a[0], t);
        lemma_run_concat(a.drop_first(), b, t1);
        let (x, ta) = reconnect_run(a.drop_first(), t1);
        let (y, tb) = reconnect_run(b, ta);
        assert(seq![a0] + (x + y) =~= (seq![a0] + x) + y);
    }
}

/// Round `j` of a run of failed attempts, its actions starting at `at`:
/// an attempt, the timer's delay for that attempt, another look.
pub open spec fn failed_round(acts: Seq<ReconnectAction>, at: int, t: TimerView, j: int) -> bool {
    &&& acts[at + 3 * j] is Connect
    &&& acts[at + 3 * j + 1] == ReconnectAction::Wait(
        duration_from_millis(delay_for(t.intervals, (t.attempts + j) as nat)),
    )
    &&& acts[at + 3 * j + 2] is ReadState
}

/// `k` failed rounds lead to `k` attempts, each followed by the timer's
/// next delay.
proof fn lemma_failing_rounds(t: TimerView, k: nat)
    ensures
        reconnect_run(failing_rounds(k), t).0.len() == 3 * k,
        forall|j: int| 0 <= j < k ==> #[trigger] failed_round(reconnect_run(failing_rounds(k), t).0, 0, t, j),
        reconnect_run(failing_rounds(k), t).1 == (TimerView { attempts: t.attempts + k, intervals: t.intervals }),
    decreases k,
{
    if k == 0 {
        assert(t == TimerView { attempts: t.attempts + 0, intervals: t.intervals });
    } else {
        let head = seq![
            ReconnectEvent::StateRead(ConnectionState::Closed),
            ReconnectEvent::ConnectFailed,
            ReconnectEvent::Waited,
        ];
        let t1 = TimerView { attempts: t.attempts + 1, intervals: t.intervals };
        let rest = failing_rounds((k - 1) as nat);
        lemma_run_concat(head, rest, t);
        assert(reconnect_run(head, t).1 == t1 && reconnect_run(head, t).0 =~= seq![
            ReconnectAction::Connect,
            ReconnectAction::Wait(duration_from_millis(delay_for(t.intervals, t.attempts))),
            ReconnectAction::ReadState,
        ]) by {
            reveal_with_fuel(reconnect_run, 4);
            assert(head.drop_first().drop_first().drop_first() =~= Seq::<ReconnectEvent>::empty());
            assert(head.drop_first()[0] == ReconnectEvent::ConnectFailed);
            assert(head.drop_first().drop_first()[0] == ReconnectEvent::Waited);
        }
        lemma_failing_rounds(t1, (k - 1) as nat);
        let acts = reconnect_run(failing_rounds(k), t).0;
        let ra = reconnect_run(rest, t1).0;
        assert forall|j: int| 0 <= j < k implies #[trigger] failed_round(acts, 0, t, j) by {
            if j > 0 {
                assert(failed_round(ra, 0, t1, j - 1));
                assert(acts[3 * j] == ra[3 * (j - 1)]);
                assert(acts[3 * j + 1] == ra[3 * (j - 1) + 1]);
                assert(acts[3 * j + 2] == ra[3 * (j - 1) + 2]);
                assert((t1.attempts + (j - 1)) as nat == (t.attempts + j) as nat);
            }
        }
    }
}

/// Reconnection over a whole run: after a close that was not manual, each
/// failed attempt is followed by the timer's next delay (the first delay,
/// the second, and so on, then the last one over and over) and another
/// look at the state; the attempt that succeeds is followed by joining the
/// channels again. After `k` failures the timer has counted `k` attempts.
pub proof fn lemma_reconnect_after_failures(t: TimerView, k: nat)
    ensures
        ({
            let events = seq![ReconnectEvent::Started(false)] + failing_rounds(k) + seq![
                ReconnectEvent::StateRead(ConnectionState::Closed),
                ReconnectEvent::Connected,
            ];
            let (acts, t2) = reconnect_run(events, t);
            &&& acts.len() == 3 * k + 3
            &&& acts[0] is ReadState
            &&& forall|j: int| 0 <= j < k ==> #[trigger] failed_round(acts, 1, t, j)
            &&& acts[3 * k + 1 as int] is Connect
            &&& acts[3 * k + 2 as int] is Resubscribe
            &&& t2 == TimerView { attempts: t.attempts + k, intervals: t.intervals }
        }),
{
    let first = seq![ReconnectEvent::Started(false)];
    let mid = failing_rounds(k);
    let last = seq![ReconnectEvent::StateRead(ConnectionState::Closed), ReconnectEvent::Connected];
    lemma_run_concat(first + mid, last, t);
    lemma_run_concat(first, mid, t);
    lemma_failing_rounds(t, k);
    let tk = TimerView { attempts: t.attempts + k, intervals: t.intervals };
    assert(reconnect_run(first, t).0 =~= seq![ReconnectAction::ReadState] && reconnect_run(first, t).1 == t) by {
        reveal_with_fuel(reconnect_run, 2);
        assert(first.drop_first() =~= Seq::<ReconnectEvent>::empty());
    }
    assert(reconnect_run(last, tk).0 =~= seq![ReconnectAction::Connect, ReconnectAction::Resubscribe]
        && reconnect_run(last, tk).1 == tk) by {
        reveal_with_fuel(reconnect_run, 3);
        assert(last.drop_first()[0] == ReconnectEvent::Connected);
        assert(last.drop_first().drop_first() =~= Seq::<ReconnectEvent>::empty());
    }
    let ma = reconnect_run(mid, t).0;
    let acts = reconnect_run(first + mid + last, t).0;
    assert(acts =~= seq![ReconnectAction::ReadState] + ma + seq![ReconnectAction::Connect, ReconnectAction::Resubscribe]);
    assert forall|j: int| 0 <= j < k implies #[trigger] failed_round(acts, 1, t, j) by {
        assert(failed_round(ma, 0, t, j));
        assert(acts[3 * j + 1] == ma[3 * j]);
        assert(acts[3 * j + 2] == ma[3 * j + 1]);
        assert(acts[3 * j + 3] == ma[3 * j + 2]);
    }
}

pub fn reconnect_step(event: ReconnectEvent, timer: &mut Timer) -> (a: ReconnectAction)
    requires
        event is ConnectFailed ==> old(timer)@.attempts < u32::MAX,
    ensures
        (a, final(timer)@) == reconnect_next(event, old(timer)@),
{
    match event {
        ReconnectEvent::Started(manual) => if manual {
            ReconnectAction::Stop
        } else {
            ReconnectAction::ReadState
        },
        ReconnectEvent::StateRead(state) => if connect_needed(state) {
            ReconnectAction::Connect
        } else {
            ReconnectAction::Stop
        },
        ReconnectEvent::Connected => ReconnectAction::Resubscribe,
        ReconnectEvent::ConnectFailed => ReconnectAction::Wait(timer.next_delay()),
        ReconnectEvent::Waited => ReconnectAction::ReadState,
    }
}

/// After a manual disconnect the watcher does not reconnect, whatever the
/// state; after any other close it does.
pub proof fn lemma_manual_disconnect_stays_down(state: ConnectionState)
    ensures
        !wants_reconnect(state, true),
        wants_reconnect(ConnectionState::Closed, false),
{
}

impl<W> Default for ConnectionManager<W> {
    /// A closed connection without writer.
    fn default() -> (r: ConnectionManager<W>)
        ensures
            r@.writer is None,
            r@.state == ConnectionState::Closed,
    {
        ConnectionManager::new()
    }
}

} // verus!
