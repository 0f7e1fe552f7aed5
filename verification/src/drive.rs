//! Driving a poll-based QUIC connection: the decisions of the event loop.
//!
//! The connection is a synchronous state machine. On each round the loop
//! (1) asks the caller whether it is done, (2) drains the connection's
//! outgoing datagrams, (3) goes round again at once if the connection has
//! new events, and otherwise (4) waits for an incoming datagram or for the
//! connection's timer. [`Drive`] holds the loop's state; the caller performs
//! each action that [`Drive::step`] returns and reports what came of it.
use vstd::prelude::*;

verus! {

/// A timer length as the connection reports it.
#[derive(Clone, Copy, Debug, PartialEq, Eq)]
pub struct Timer {
    pub secs: u64,
    pub nanos: u32,
}

/// What the connection answers when asked for output.
#[derive(Clone, Copy, Debug, PartialEq, Eq)]
pub enum ConnOutput {
    /// A datagram to send.
    Datagram,
    /// Nothing to send before the timer of this length expires.
    Callback(Timer),
    /// Nothing to send and no timer.
    Nothing,
}

/// Where the loop stands.
#[derive(Clone, Copy, Debug, PartialEq, Eq, Structural)]
pub enum DrivePhase {
    /// Waiting for the caller's completion check.
    CheckDone,
    /// Waiting for the connection's next output.
    Draining,
    /// Waiting for a datagram to be sent.
    Sending,
    /// Waiting to learn whether the connection has events pending.
    CheckEvents,
    /// Waiting for the socket or the timer.
    Waiting,
    /// Waiting for a receive attempt on the readable socket.
    Receiving,
    /// Waiting for a received datagram to be handed to the connection.
    Delivering,
    /// The loop has ended: the caller is done.
    Finished,
    /// The loop has ended with an error.
    Failed,
}

/// What the caller reports back.
#[derive(Clone, Copy, Debug, PartialEq, Eq)]
pub enum DriveEvent {
    /// The completion check answered.
    Done(bool),
    /// The completion check failed.
    DoneFailed,
    /// The connection's next output.
    Output(ConnOutput),
    /// The datagram was sent.
    Sent,
    /// Sending the datagram failed.
    SendFailed,
    /// Whether the connection has events pending.
    Pending(bool),
    /// The socket is readable.
    Readable,
    /// Waiting for the socket failed.
    ReadableFailed,
    /// The timer expired.
    TimerFired,
    /// A datagram was received.
    Received,
    /// The receive attempt would have blocked.
    WouldBlock,
    /// The receive attempt failed.
    RecvFailed,
    /// The received datagram was handed to the connection.
    Delivered,
}

/// Which error ends the loop.
#[derive(Clone, Copy, Debug, PartialEq, Eq, Structural)]
pub enum DriveFailure {
    /// The completion check's own error.
    Done,
    /// Sending a datagram failed.
    Send,
    /// Waiting for the socket failed.
    Readable,
    /// Receiving from the socket failed.
    Recv,
}

/// What the caller does next.
#[derive(Clone, Copy, Debug, PartialEq, Eq)]
pub enum DriveAction {
    /// Run the completion check (which first drains the connection's events).
    CallDone,
    /// Ask the connection for its next output.
    ProcessOutput,
    /// Send the datagram that the connection gave.
    SendDatagram,
    /// Ask whether the connection has events pending.
    QueryEvents,
    /// Wait for the socket to become readable or for this timer (forever if none).
    Wait(Option<Timer>),
    /// Try to receive a datagram from the readable socket.
    TryRecv,
    /// Hand the received datagram to the connection.
    Deliver,
    /// End the loop successfully.
    Finish,
    /// End the loop with this error.
    Fail(DriveFailure),
}

/// The state of the loop: its phase and the timer of the last drain.
#[derive(Clone, Copy, Debug)]
pub struct Drive {
    pub phase: DrivePhase,
    pub timeout: Option<Timer>,
}

/// The events that the loop awaits in each phase.
pub open spec fn accepts(phase: DrivePhase, ev: DriveEvent) -> bool {
    match phase {
        DrivePhase::CheckDone => ev is Done || ev is DoneFailed,
        DrivePhase::Draining => ev is Output,
        DrivePhase::Sending => ev is Sent || ev is SendFailed,
        DrivePhase::CheckEvents => ev is Pending,
        DrivePhase::Waiting => ev is Readable || ev is ReadableFailed || ev is TimerFired,
        DrivePhase::Receiving => ev is Received || ev is WouldBlock || ev is RecvFailed,
        DrivePhase::Delivering => ev is Delivered,
        DrivePhase::Finished => false,
        DrivePhase::Failed => false,
    }
}

/// The timer that an output leaves: that of a callback, none otherwise.
pub open spec fn output_timer(o: ConnOutput) -> Option<Timer> {
    match o {
        ConnOutput::Callback(t) => Some(t),
        _ => None,
    }
}

pub open spec fn drive_start() -> (Drive, DriveAction) {
    (Drive { phase: DrivePhase::CheckDone, timeout: None }, DriveAction::CallDone)
}

/// One step of the loop: the next state and action after event `ev`.
pub open spec fn drive_next(st: Drive, ev: DriveEvent) -> (Drive, DriveAction) {
    let to = |p: DrivePhase| Drive { phase: p, timeout: st.timeout };
    match ev {
        DriveEvent::Done(true) => (to(DrivePhase::Finished), DriveAction::Finish),
        DriveEvent::Done(false) => (to(DrivePhase::Draining), DriveAction::ProcessOutput),
        DriveEvent::DoneFailed => (to(DrivePhase::Failed), DriveAction::Fail(DriveFailure::Done)),
        DriveEvent::Output(ConnOutput::Datagram) => (to(DrivePhase::Sending), DriveAction::SendDatagram),
        DriveEvent::Output(o) => (
            Drive { phase: DrivePhase::CheckEvents, timeout: output_timer(o) },
            DriveAction::QueryEvents,
        ),
        DriveEvent::Sent => (to(DrivePhase::Draining), DriveAction::ProcessOutput),
        DriveEvent::SendFailed => (to(DrivePhase::Failed), DriveAction::Fail(DriveFailure::Send)),
        DriveEvent::Pending(true) => (to(DrivePhase::CheckDone), DriveAction::CallDone),
        DriveEvent::Pending(false) => (to(DrivePhase::Waiting), DriveAction::Wait(st.timeout)),
        DriveEvent::Readable => (to(DrivePhase::Receiving), DriveAction::TryRecv),
        DriveEvent::ReadableFailed => (to(DrivePhase::Failed), DriveAction::Fail(DriveFailure::Readable)),
        DriveEvent::TimerFired => (to(DrivePhase::CheckDone), DriveAction::CallDone),
        DriveEvent::Received => (to(DrivePhase::Delivering), DriveAction::Deliver),
        DriveEvent::WouldBlock => (to(DrivePhase::CheckDone), DriveAction::CallDone),
        DriveEvent::RecvFailed => (to(DrivePhase::Failed), DriveAction::Fail(DriveFailure::Recv)),
        DriveEvent::Delivered => (to(DrivePhase::CheckDone), DriveAction::CallDone),
    }
}

impl Drive {
    /// A new loop: no timer yet, and the first action is the completion check.
    pub fn new() -> (r: (Drive, DriveAction))
        ensures
            r == drive_start(),
    {
        (Drive { phase: DrivePhase::CheckDone, timeout: None }, DriveAction::CallDone)
    }

    /// Whether the loop has ended.
    pub fn is_over(&self) -> (b: bool)
        ensures
            b == (self.phase == DrivePhase::Finished || self.phase == DrivePhase::Failed),
    {
        self.phase == DrivePhase::Finished || self.phase == DrivePhase::Failed
    }

    /// Takes the outcome of the last action and returns the next action.
    pub fn step(&mut self, ev: DriveEvent) -> (a: DriveAction)
        requires
            accepts(old(self).phase, ev),
        ensures
            (*final(self), a) == drive_next(*old(self), ev),
            ev matches DriveEvent::Output(ConnOutput::Callback(t)) ==> final(self).timeout == Some(t)
                && final(self).phase == DrivePhase::CheckEvents && a == DriveAction::QueryEvents,
            ev == DriveEvent::Output(ConnOutput::Nothing) ==> final(self).timeout == None::<Timer>
                && final(self).phase == DrivePhase::CheckEvents && a == DriveAction::QueryEvents,
            ev == DriveEvent::Pending(false) ==> a == DriveAction::Wait(old(self).timeout)
                && final(self).timeout == old(self).timeout,
            !(ev is Output) ==> final(self).timeout == old(self).timeout,
    {
        let keep = self.timeout;
        let (phase, action) = match ev {
            DriveEvent::Done(true) => (DrivePhase::Finished, DriveAction::Finish),
            DriveEvent::Done(false) => (DrivePhase::Draining, DriveAction::ProcessOutput),
            DriveEvent::DoneFailed => (DrivePhase::Failed, DriveAction::Fail(DriveFailure::Done)),
            DriveEvent::Output(ConnOutput::Datagram) => (DrivePhase::Sending, DriveAction::SendDatagram),
            DriveEvent::Output(ConnOutput::Callback(t)) => {
                self.timeout = Some(t);
                (DrivePhase::CheckEvents, DriveAction::QueryEvents)
            },
            DriveEvent::Output(ConnOutput::Nothing) => {
                self.timeout = None;
                (DrivePhase::CheckEvents, DriveAction::QueryEvents)
            },
            DriveEvent::Sent => (DrivePhase::Draining, DriveAction::ProcessOutput),
            DriveEvent::SendFailed => (DrivePhase::Failed, DriveAction::Fail(DriveFailure::Send)),
            DriveEvent::Pending(true) => (DrivePhase::CheckDone, DriveAction::CallDone),
            DriveEvent::Pending(false) => (DrivePhase::Waiting, DriveAction::Wait(keep)),
            DriveEvent::Readable => (DrivePhase::Receiving, DriveAction::TryRecv),
            DriveEvent::ReadableFailed => (DrivePhase::Failed, DriveAction::Fail(DriveFailure::Readable)),
            DriveEvent::TimerFired => (DrivePhase::CheckDone, DriveAction::CallDone),
            DriveEvent::Received => (DrivePhase::Delivering, DriveAction::Deliver),
            DriveEvent::WouldBlock => (DrivePhase::CheckDone, DriveAction::CallDone),
            DriveEvent::RecvFailed => (DrivePhase::Failed, DriveAction::Fail(DriveFailure::Recv)),
            DriveEvent::Delivered => (DrivePhase::CheckDone, DriveAction::CallDone),
        };
        self.phase = phase;
        action
    }
}

/// What the shutdown drain does with an output.
#[derive(Clone, Copy, Debug, PartialEq, Eq, Structural)]
pub enum CloseAction {
    /// Send the datagram (a failure to send is ignored) and ask again.
    SendDatagram,
    /// Stop draining.
    Stop,
}

/// After the connection is closed, its remaining datagrams are sent until it
/// has no datagram left to give.
pub fn close_step(out: ConnOutput) -> (a: CloseAction)
    ensures
        a == (if out is Datagram { CloseAction::SendDatagram } else { CloseAction::Stop }),
{
    match out {
        ConnOutput::Datagram => CloseAction::SendDatagram,
        _ => CloseAction::Stop,
    }
}

/// The state after a run of events from the start, each accepted in turn.
pub open spec fn drive_after(evs: Seq<DriveEvent>) -> Drive
    decreases evs.len(),
{
    if evs.len() == 0 {
        drive_start().0
    } else {
        drive_next(drive_after(evs.drop_last()), evs.last()).0
    }
}

/// Each event of `evs` is one that the loop awaits at that point.
pub open spec fn accepted_run(evs: Seq<DriveEvent>) -> bool
    decreases evs.len(),
{
    if evs.len() == 0 {
        true
    } else {
        accepted_run(evs.drop_last()) && accepts(drive_after(evs.drop_last()).phase, evs.last())
    }
}

/// Event `j` of `evs` is an output that ended a drain (a callback or nothing),
/// and no output comes after it.
pub open spec fn drained_at(evs: Seq<DriveEvent>, j: int) -> bool {
    &&& 0 <= j < evs.len()
    &&& evs[j] is Output
    &&& !(evs[j]->Output_0 is Datagram)
    &&& forall|i: int| j < i < evs.len() ==> !(#[trigger] evs[i] is Output)
}

proof fn lemma_timer_comes_from_last_drain(evs: Seq<DriveEvent>)
    requires
        accepted_run(evs),
    ensures
        ({
            let st = drive_after(evs);
            (st.phase == DrivePhase::CheckEvents || st.phase == DrivePhase::Waiting) ==> exists|j: int|
                drained_at(evs, j) && st.timeout == output_timer(#[trigger] evs[j]->Output_0)
        }),
    decreases evs.len(),
{
    if evs.len() > 0 {
        let pre = evs.drop_last();
        lemma_timer_comes_from_last_drain(pre);
        let st = drive_after(evs);
        let last = evs.len() - 1;
        if st.phase == DrivePhase::CheckEvents || st.phase == DrivePhase::Waiting {
            if evs.last() is Output {
                assert(drained_at(evs, last));
            } else {
                let j = choose|j: int| drained_at(pre, j) && drive_after(pre).timeout == output_timer(#[trigger] pre[j]->Output_0);
                assert(pre[j] == evs[j]);
                assert forall|i: int| j < i < evs.len() implies !(#[trigger] evs[i] is Output) by {
                    if i < last {
                        assert(evs[i] == pre[i]);
                    }
                }
                assert(drained_at(evs, j));
            }
        }
    }
}

/// The loop waits with the timer that the connection gave when the last
/// drain of its output ended: if the event `ev` that follows an accepted run
/// makes the loop wait with timer `t`, then some earlier event is the output
/// that ended a drain (a callback or nothing), no output came after it, and
/// `t` is that output's timer.
pub proof fn lemma_wait_uses_last_drain_timer(evs: Seq<DriveEvent>, ev: DriveEvent)
    requires
        accepted_run(evs),
        accepts(drive_after(evs).phase, ev),
        drive_next(drive_after(evs), ev).1 is Wait,
    ensures
        exists|j: int|
            drained_at(evs, j) && drive_next(drive_after(evs), ev).1->Wait_0 == output_timer(
                #[trigger] evs[j]->Output_0,
            ),
{
    lemma_timer_comes_from_last_drain(evs);
}

/// The loop ends successfully only on a completion check that answered
/// true, and it ends with an error only on a failure the caller reported.
pub proof fn lemma_loop_ends_only_on_outcome(st: Drive, ev: DriveEvent)
    requires
        accepts(st.phase, ev),
    ensures
        drive_next(st, ev).1 == DriveAction::Finish <==> ev == DriveEvent::Done(true),
        drive_next(st, ev).1 is Fail <==> (ev is DoneFailed || ev is SendFailed || ev is ReadableFailed
            || ev is RecvFailed),
        drive_next(st, ev).0.phase == DrivePhase::Finished <==> ev == DriveEvent::Done(true),
{
}

/// Each round makes progress in order: after a completion check that is not
/// done the output is drained; after each datagram sent the output is asked
/// for again; a drain that ends is followed by the query for pending events;
/// pending events, an expired timer, a blocked receive and a delivered
/// datagram all lead back to the completion check.
pub proof fn lemma_round_order(st: Drive, ev: DriveEvent)
    requires
        accepts(st.phase, ev),
    ensures
        ev == DriveEvent::Done(false) ==> drive_next(st, ev).1 == DriveAction::ProcessOutput,
        ev == DriveEvent::Sent ==> drive_next(st, ev).1 == DriveAction::ProcessOutput,
        ev == DriveEvent::Output(ConnOutput::Datagram) ==> drive_next(st, ev).1 == DriveAction::SendDatagram,
        (ev is Output && !(ev->Output_0 is Datagram)) ==> drive_next(st, ev).1 == DriveAction::QueryEvents,
        (ev == DriveEvent::Pending(true) || ev == DriveEvent::TimerFired || ev == DriveEvent::WouldBlock
            || ev == DriveEvent::Delivered) ==> drive_next(st, ev).1 == DriveAction::CallDone,
        drive_next(st, ev).1 is Wait ==> ev == DriveEvent::Pending(false),
{
}

/// The wait uses the connection's timer as given: a drain that ends on a
/// callback of any length `t`, followed by no pending events, waits with
/// exactly `Some(t)`; a drain that ends on no output waits with no timer.
pub proof fn lemma_callback_timer_is_waited_on(st: Drive, t: Timer)
    requires
        st.phase == DrivePhase::Draining,
    ensures
        ({
            let (s1, a1) = drive_next(st, DriveEvent::Output(ConnOutput::Callback(t)));
            &&& a1 == DriveAction::QueryEvents
            &&& s1.timeout == Some(t)
            &&& accepts(s1.phase, DriveEvent::Pending(false))
            &&& drive_next(s1, DriveEvent::Pending(false)).1 == DriveAction::Wait(Some(t))
        }),
        ({
            let (s1, a1) = drive_next(st, DriveEvent::Output(ConnOutput::Nothing));
            &&& accepts(s1.phase, DriveEvent::Pending(false))
            &&& drive_next(s1, DriveEvent::Pending(false)).1 == DriveAction::Wait(None)
        }),
{
}

} // verus!
