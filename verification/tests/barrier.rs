use plyoreacto::barrier::{Barrier, BarrierSession, BarrierStage, SessionState, SlotStep};
use plyoreacto::command::{Command, Handle, Signal};
use plyoreacto::config::MAX_PARTICIPANTS;
use plyoreacto::endpoint::{Endpoint, LocalAddress};

fn reply(slot: u32) -> Handle {
    Handle::Reply { slot }
}

fn session(id: u32, state: SessionState) -> BarrierSession {
    BarrierSession { id, port: 5000 + id as u64, state }
}

/// Carries out every operation the barrier asks for and returns them in order.
fn run_to_the_end(barrier: &mut Barrier) -> Vec<Command> {
    let mut commands = Vec::new();
    while let Some(command) = barrier.pending() {
        commands.push(command);
        barrier.complete();
    }
    commands
}

#[test]
fn a_barrier_for_nobody_is_released_at_once() {
    let barrier = Barrier::new(0);
    assert!(barrier.is_released());
    assert_eq!(barrier.pending(), None);
    assert_eq!(barrier.total(), 0);
    assert!(barrier.sessions().is_empty());
}

#[test]
fn a_new_barrier_opens_slot_zero() {
    let barrier = Barrier::new(4);
    assert_eq!(barrier.total(), 4);
    assert!(!barrier.is_released());
    assert_eq!(barrier.stage(), BarrierStage::Collecting { step: SlotStep::Open });
    assert_eq!(barrier.pending(), Some(Command::Open { handle: reply(0) }));
    assert!(barrier.sessions().is_empty());
    assert_eq!(barrier.failure(), None);
}

#[test]
fn the_operations_of_one_participant() {
    let mut barrier = Barrier::new(1);
    assert_eq!(
        run_to_the_end(&mut barrier),
        vec![
            Command::Open { handle: reply(0) },
            Command::Bind { handle: reply(0), endpoint: Endpoint::Tcp { port: 5000 } },
            Command::Bind {
                handle: reply(0),
                endpoint: Endpoint::Inproc(LocalAddress::Sync { port: 5000 }),
            },
            Command::Receive { handle: reply(0) },
            Command::Send { handle: reply(0), signal: Signal::Acknowledge },
        ]
    );
    assert!(barrier.is_released());
    assert_eq!(barrier.sessions(), &vec![session(0, SessionState::AckSent)]);
}

#[test]
fn the_operations_of_four_participants() {
    let mut barrier = Barrier::new(4);
    let commands = run_to_the_end(&mut barrier);
    let mut expected = Vec::new();
    for slot in 0..4u32 {
        let port = 5000 + slot as u64;
        expected.push(Command::Open { handle: reply(slot) });
        expected.push(Command::Bind { handle: reply(slot), endpoint: Endpoint::Tcp { port } });
        expected.push(Command::Bind {
            handle: reply(slot),
            endpoint: Endpoint::Inproc(LocalAddress::Sync { port }),
        });
        expected.push(Command::Receive { handle: reply(slot) });
    }
    for slot in [3u32, 2, 1, 0] {
        expected.push(Command::Send { handle: reply(slot), signal: Signal::Acknowledge });
    }
    assert_eq!(commands, expected);
    assert!(barrier.is_released());
}

#[test]
fn one_request_and_one_reply_for_each_participant() {
    for total in 1..=12u32 {
        let mut barrier = Barrier::new(total as u64);
        let commands = run_to_the_end(&mut barrier);
        assert_eq!(commands.len(), 5 * total as usize);
        for slot in 0..total {
            let receives = commands
                .iter()
                .filter(|c| **c == Command::Receive { handle: reply(slot) })
                .count();
            let sends = commands
                .iter()
                .filter(|c| {
                    **c == Command::Send { handle: reply(slot), signal: Signal::Acknowledge }
                })
                .count();
            assert_eq!(receives, 1);
            assert_eq!(sends, 1);
        }
        let last_receive =
            commands.iter().rposition(|c| matches!(c, Command::Receive { .. })).unwrap();
        let first_send = commands.iter().position(|c| matches!(c, Command::Send { .. })).unwrap();
        assert!(last_receive < first_send);
        assert_eq!(barrier.sessions().len(), total as usize);
        for slot in 0..total {
            assert_eq!(barrier.sessions()[slot as usize], session(slot, SessionState::AckSent));
        }
    }
}

#[test]
fn the_barrier_is_not_released_one_operation_early() {
    for total in 1..=8u32 {
        let mut barrier = Barrier::new(total as u64);
        for _ in 0..(5 * total - 1) {
            assert!(!barrier.is_released());
            barrier.complete();
        }
        assert!(!barrier.is_released());
        assert_eq!(
            barrier.pending(),
            Some(Command::Send { handle: reply(0), signal: Signal::Acknowledge })
        );
        barrier.complete();
        assert!(barrier.is_released());
    }
}

#[test]
fn a_session_goes_through_its_three_states() {
    let mut barrier = Barrier::new(2);
    barrier.complete();
    barrier.complete();
    assert!(barrier.sessions().is_empty());
    barrier.complete();
    assert_eq!(barrier.sessions(), &vec![session(0, SessionState::AwaitingConnection)]);
    assert_eq!(barrier.stage(), BarrierStage::Collecting { step: SlotStep::Receive });
    barrier.complete();
    assert_eq!(barrier.sessions(), &vec![session(0, SessionState::ReceivedReady)]);
    assert_eq!(barrier.pending(), Some(Command::Open { handle: reply(1) }));
    barrier.complete();
    barrier.complete();
    barrier.complete();
    assert_eq!(
        barrier.sessions(),
        &vec![session(0, SessionState::ReceivedReady), session(1, SessionState::AwaitingConnection)]
    );
    barrier.complete();
    assert_eq!(barrier.stage(), BarrierStage::Acknowledging { next: 1 });
    assert_eq!(
        barrier.sessions(),
        &vec![session(0, SessionState::ReceivedReady), session(1, SessionState::ReceivedReady)]
    );
    barrier.complete();
    assert_eq!(barrier.stage(), BarrierStage::Acknowledging { next: 0 });
    assert_eq!(
        barrier.sessions(),
        &vec![session(0, SessionState::ReceivedReady), session(1, SessionState::AckSent)]
    );
    barrier.complete();
    assert_eq!(barrier.stage(), BarrierStage::Released);
    assert_eq!(
        barrier.sessions(),
        &vec![session(0, SessionState::AckSent), session(1, SessionState::AckSent)]
    );
}

#[test]
fn nobody_is_answered_while_somebody_is_missing() {
    let mut barrier = Barrier::new(3);
    // The first two participants arrive, the third never does.
    for _ in 0..11 {
        barrier.complete();
    }
    assert_eq!(barrier.pending(), Some(Command::Receive { handle: reply(2) }));
    for _ in 0..100 {
        assert_eq!(barrier.pending(), Some(Command::Receive { handle: reply(2) }));
        assert!(!barrier.is_released());
    }
    assert!(barrier.sessions().iter().all(|s| s.state != SessionState::AckSent));
}

#[test]
fn a_failed_bind_stops_the_barrier() {
    let mut barrier = Barrier::new(2);
    barrier.complete();
    let failing = Command::Bind { handle: reply(0), endpoint: Endpoint::Tcp { port: 5000 } };
    assert_eq!(barrier.pending(), Some(failing));
    barrier.fail();
    assert_eq!(barrier.failure(), Some(failing));
    assert_eq!(barrier.stage(), BarrierStage::Failed { command: failing });
    assert_eq!(barrier.pending(), None);
    assert!(!barrier.is_released());
    barrier.complete();
    barrier.fail();
    assert_eq!(barrier.failure(), Some(failing));
    assert!(!barrier.is_released());
}

#[test]
fn a_failed_reply_stops_the_barrier() {
    let mut barrier = Barrier::new(2);
    for _ in 0..9 {
        barrier.complete();
    }
    let failing = Command::Send { handle: reply(0), signal: Signal::Acknowledge };
    assert_eq!(barrier.pending(), Some(failing));
    barrier.fail();
    assert_eq!(barrier.failure(), Some(failing));
    assert!(!barrier.is_released());
    assert_eq!(
        barrier.sessions(),
        &vec![session(0, SessionState::ReceivedReady), session(1, SessionState::AckSent)]
    );
}

#[test]
fn a_released_barrier_stays_released() {
    let mut barrier = Barrier::new(1);
    run_to_the_end(&mut barrier);
    barrier.complete();
    barrier.fail();
    assert!(barrier.is_released());
    assert_eq!(barrier.failure(), None);
    assert_eq!(barrier.pending(), None);
}

#[test]
fn a_barrier_for_as_many_participants_as_there_are_identifiers() {
    let mut barrier = Barrier::new(MAX_PARTICIPANTS);
    assert_eq!(barrier.total(), 4_294_967_296);
    assert_eq!(barrier.pending(), Some(Command::Open { handle: reply(0) }));
    for _ in 0..4 {
        barrier.complete();
    }
    assert_eq!(barrier.pending(), Some(Command::Open { handle: reply(1) }));
    assert!(!barrier.is_released());
}
