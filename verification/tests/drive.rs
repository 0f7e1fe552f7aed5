use nesquic::drive::{
    close_step, CloseAction, ConnOutput, Drive, DriveAction, DriveEvent, DriveFailure, DrivePhase, Timer,
};

fn run(events: &[DriveEvent]) -> (Drive, Vec<DriveAction>) {
    let (mut d, first) = Drive::new();
    let mut actions = vec![first];
    for ev in events {
        actions.push(d.step(*ev));
    }
    (d, actions)
}

#[test]
fn done_at_once() {
    let (d, actions) = run(&[DriveEvent::Done(true)]);
    assert_eq!(actions, vec![DriveAction::CallDone, DriveAction::Finish]);
    assert_eq!(d.phase, DrivePhase::Finished);
    assert!(d.is_over());
}

#[test]
fn a_full_round_with_timer_and_receive() {
    let t = Timer { secs: 0, nanos: 25_000_000 };
    let (d, actions) = run(&[
        DriveEvent::Done(false),
        DriveEvent::Output(ConnOutput::Datagram),
        DriveEvent::Sent,
        DriveEvent::Output(ConnOutput::Datagram),
        DriveEvent::Sent,
        DriveEvent::Output(ConnOutput::Callback(t)),
        DriveEvent::Pending(false),
        DriveEvent::Readable,
        DriveEvent::Received,
        DriveEvent::Delivered,
        DriveEvent::Done(true),
    ]);
    assert_eq!(
        actions,
        vec![
            DriveAction::CallDone,
            DriveAction::ProcessOutput,
            DriveAction::SendDatagram,
            DriveAction::ProcessOutput,
            DriveAction::SendDatagram,
            DriveAction::ProcessOutput,
            DriveAction::QueryEvents,
            DriveAction::Wait(Some(t)),
            DriveAction::TryRecv,
            DriveAction::Deliver,
            DriveAction::CallDone,
            DriveAction::Finish,
        ]
    );
    assert!(d.is_over());
}

#[test]
fn pending_events_skip_the_wait() {
    let (_, actions) = run(&[
        DriveEvent::Done(false),
        DriveEvent::Output(ConnOutput::Nothing),
        DriveEvent::Pending(true),
    ]);
    assert_eq!(actions.last(), Some(&DriveAction::CallDone));
}

#[test]
fn wait_uses_timer_of_last_drain() {
    let t = Timer { secs: 1, nanos: 0 };
    let (d, actions) = run(&[
        DriveEvent::Done(false),
        DriveEvent::Output(ConnOutput::Callback(t)),
        DriveEvent::Pending(false),
        DriveEvent::TimerFired,
        DriveEvent::Done(false),
        DriveEvent::Output(ConnOutput::Nothing),
        DriveEvent::Pending(false),
    ]);
    assert_eq!(actions[3], DriveAction::Wait(Some(t)));
    assert_eq!(actions[4], DriveAction::CallDone);
    assert_eq!(actions[7], DriveAction::Wait(None));
    assert_eq!(d.timeout, None);
}

#[test]
fn would_block_goes_back_to_done_check() {
    let (_, actions) = run(&[
        DriveEvent::Done(false),
        DriveEvent::Output(ConnOutput::Nothing),
        DriveEvent::Pending(false),
        DriveEvent::Readable,
        DriveEvent::WouldBlock,
    ]);
    assert_eq!(actions.last(), Some(&DriveAction::CallDone));
}

#[test]
fn failures() {
    let (d, a) = run(&[DriveEvent::DoneFailed]);
    assert_eq!(a.last(), Some(&DriveAction::Fail(DriveFailure::Done)));
    assert_eq!(d.phase, DrivePhase::Failed);
    let (_, a) = run(&[DriveEvent::Done(false), DriveEvent::Output(ConnOutput::Datagram), DriveEvent::SendFailed]);
    assert_eq!(a.last(), Some(&DriveAction::Fail(DriveFailure::Send)));
    let (_, a) = run(&[
        DriveEvent::Done(false),
        DriveEvent::Output(ConnOutput::Nothing),
        DriveEvent::Pending(false),
        DriveEvent::ReadableFailed,
    ]);
    assert_eq!(a.last(), Some(&DriveAction::Fail(DriveFailure::Readable)));
    let (d, a) = run(&[
        DriveEvent::Done(false),
        DriveEvent::Output(ConnOutput::Nothing),
        DriveEvent::Pending(false),
        DriveEvent::Readable,
        DriveEvent::RecvFailed,
    ]);
    assert_eq!(a.last(), Some(&DriveAction::Fail(DriveFailure::Recv)));
    assert!(d.is_over());
}

#[test]
fn shutdown_drain() {
    assert_eq!(close_step(ConnOutput::Datagram), CloseAction::SendDatagram);
    assert_eq!(close_step(ConnOutput::Nothing), CloseAction::Stop);
    assert_eq!(close_step(ConnOutput::Callback(Timer { secs: 0, nanos: 1 })), CloseAction::Stop);
}
