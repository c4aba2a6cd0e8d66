//! The rendezvous barrier.
//!
//! The barrier takes the participants one slot at a time, in ascending
//! order of their identifiers: it opens the reply socket of the slot, binds
//! it to the slot's two addresses and waits for the participant's request.
//! Only when every participant has been heard does it answer, one reply per
//! slot, last slot first. No participant is let go before all have arrived.

use vstd::prelude::*;
use crate::command::{Command, Handle, Signal};
use crate::config::MAX_PARTICIPANTS;
use crate::endpoint::{rendezvous_port, rendezvous_port_of, Endpoint, LocalAddress};

verus! {

/// How far the rendezvous with one participant has come.
#[derive(Clone, Copy, Debug, PartialEq, Eq, Hash, Structural)]
pub enum SessionState {
    /// The barrier waits for the participant's request.
    AwaitingConnection,
    /// The request has arrived; the reply is still owed.
    ReceivedReady,
    /// The reply has been sent.
    AckSent,
}

impl SessionState {
    /// Whether `self` is the state that comes next after `before`.
    pub open spec fn follows(self, before: SessionState) -> bool {
        ||| before == SessionState::AwaitingConnection && self == SessionState::ReceivedReady
        ||| before == SessionState::ReceivedReady && self == SessionState::AckSent
    }
}

/// The rendezvous with one participant.
#[derive(Clone, Copy, Debug, PartialEq, Eq, Hash, Structural)]
pub struct BarrierSession {
    /// The participant the slot belongs to.
    pub id: u32,
    /// The port the slot listens on.
    pub port: u64,
    /// How far the rendezvous has come.
    pub state: SessionState,
}

/// The four operations that take one participant in.
#[derive(Clone, Copy, Debug, PartialEq, Eq, Hash, Structural)]
pub enum SlotStep {
    /// Create the reply socket.
    Open,
    /// Bind it to the network address.
    BindNetwork,
    /// Bind it to the local address.
    BindLocal,
    /// Wait for the request.
    Receive,
}

/// What the barrier is doing.
#[derive(Clone, Copy, Debug, PartialEq, Eq, Hash, Structural)]
pub enum BarrierStage {
    /// Taking participants in; `step` is the operation asked for next.
    Collecting { step: SlotStep },
    /// Everyone has arrived; slot `next` is answered next.
    Acknowledging { next: u32 },
    /// Everyone has been answered.
    Released,
    /// `command` failed. The barrier stays as it was at that moment.
    Failed { command: Command },
}

/// A session in `state` for the slot `id`.
pub open spec fn session_of(id: u32, state: SessionState) -> BarrierSession {
    BarrierSession { id, port: rendezvous_port_of(id), state }
}

/// The barrier as a mathematical value.
pub struct BarrierView {
    /// The number of participants awaited.
    pub total: nat,
    /// The sessions begun so far; the session of slot `k` stands at `k`.
    pub sessions: Seq<BarrierSession>,
    /// What the barrier is doing.
    pub stage: BarrierStage,
}

impl BarrierView {
    /// A barrier for `total` participants that has done nothing yet.
    pub open spec fn initial(total: nat) -> BarrierView {
        BarrierView {
            total,
            sessions: Seq::empty(),
            stage: if total == 0 {
                BarrierStage::Released
            } else {
                BarrierStage::Collecting { step: SlotStep::Open }
            },
        }
    }

    /// Whether every session up to, not including, `end` is in `state`.
    pub open spec fn all_in(self, end: int, state: SessionState) -> bool {
        forall|k: int|
            0 <= k < end && k < self.sessions.len() ==> (#[trigger] self.sessions[k]).state
                == state
    }

    /// What holds of every barrier that exists.
    pub open spec fn wf(self) -> bool {
        &&& self.total <= MAX_PARTICIPANTS
        &&& self.sessions.len() <= self.total
        &&& forall|k: int|
            0 <= k < self.sessions.len() ==> (#[trigger] self.sessions[k]).id == k
                && self.sessions[k].port == 5000 + k
        &&& match self.stage {
            BarrierStage::Collecting { step: SlotStep::Receive } => {
                &&& self.sessions.len() >= 1
                &&& self.sessions.last().state == SessionState::AwaitingConnection
                &&& self.all_in(self.sessions.len() - 1, SessionState::ReceivedReady)
            },
            BarrierStage::Collecting { step } => {
                &&& self.sessions.len() < self.total
                &&& self.all_in(self.sessions.len() as int, SessionState::ReceivedReady)
            },
            BarrierStage::Acknowledging { next } => {
                &&& self.sessions.len() == self.total
                &&& next < self.total
                &&& forall|k: int|
                    0 <= k < self.sessions.len() ==> (#[trigger] self.sessions[k]).state == if k
                        <= next {
                        SessionState::ReceivedReady
                    } else {
                        SessionState::AckSent
                    }
            },
            BarrierStage::Released => {
                &&& self.sessions.len() == self.total
                &&& self.all_in(self.sessions.len() as int, SessionState::AckSent)
            },
            BarrierStage::Failed { command } => true,
        }
    }

    /// Whether every participant has been answered.
    pub open spec fn released(self) -> bool {
        self.stage is Released
    }

    /// The number of operations carried out so far, for a barrier on which
    /// none has failed.
    pub open spec fn progress(self) -> nat {
        match self.stage {
            BarrierStage::Collecting { step: SlotStep::Open } => 4 * self.sessions.len(),
            BarrierStage::Collecting { step: SlotStep::BindNetwork } => 4 * self.sessions.len() + 1,
            BarrierStage::Collecting { step: SlotStep::BindLocal } => 4 * self.sessions.len() + 2,
            BarrierStage::Collecting { step: SlotStep::Receive } => (4 * self.sessions.len()
                - 1) as nat,
            BarrierStage::Acknowledging { next } => (5 * self.total - 1 - next) as nat,
            BarrierStage::Released => 5 * self.total,
            BarrierStage::Failed { command } => 0,
        }
    }

    /// The operation the barrier asks for next, if it asks for one: the
    /// operation that its script has at the number of operations carried
    /// out.
    pub open spec fn pending(self) -> Option<Command> {
        match self.stage {
            BarrierStage::Released => None,
            BarrierStage::Failed { command } => None,
            _ => Some(scripted(self.total, self.progress())),
        }
    }

    /// The sessions with the one at `at` moved to `state`.
    pub open spec fn with_state(self, at: int, state: SessionState) -> Seq<BarrierSession> {
        self.sessions.update(at, session_of(at as u32, state))
    }

    /// The barrier after the pending operation has been carried out.
    pub open spec fn completed(self) -> BarrierView {
        match self.stage {
            BarrierStage::Collecting { step: SlotStep::Open } => BarrierView {
                stage: BarrierStage::Collecting { step: SlotStep::BindNetwork },
                ..self
            },
            BarrierStage::Collecting { step: SlotStep::BindNetwork } => BarrierView {
                stage: BarrierStage::Collecting { step: SlotStep::BindLocal },
                ..self
            },
            BarrierStage::Collecting { step: SlotStep::BindLocal } => BarrierView {
                sessions: self.sessions.push(
                    session_of(self.sessions.len() as u32, SessionState::AwaitingConnection),
                ),
                stage: BarrierStage::Collecting { step: SlotStep::Receive },
                ..self
            },
            BarrierStage::Collecting { step: SlotStep::Receive } => BarrierView {
                sessions: self.with_state(self.sessions.len() - 1, SessionState::ReceivedReady),
                stage: if self.sessions.len() == self.total {
                    BarrierStage::Acknowledging { next: (self.total - 1) as u32 }
                } else {
                    BarrierStage::Collecting { step: SlotStep::Open }
                },
                ..self
            },
            BarrierStage::Acknowledging { next } => BarrierView {
                sessions: self.with_state(next as int, SessionState::AckSent),
                stage: if next == 0 {
                    BarrierStage::Released
                } else {
                    BarrierStage::Acknowledging { next: (next - 1) as u32 }
                },
                ..self
            },
            BarrierStage::Released => self,
            BarrierStage::Failed { command } => self,
        }
    }

    /// The barrier after the pending operation has failed.
    pub open spec fn failed(self) -> BarrierView {
        match self.pending() {
            Some(command) => BarrierView { stage: BarrierStage::Failed { command }, ..self },
            None => self,
        }
    }
}

/// The `at`-th operation of a barrier for `total` participants: four
/// operations for each slot in ascending order, then one reply for each slot
/// in descending order.
pub open spec fn scripted(total: nat, at: nat) -> Command
    recommends
        at < 5 * total,
{
    if at < 4 * total {
        let slot = (at / 4) as u32;
        let handle = Handle::Reply { slot };
        let port = rendezvous_port_of(slot);
        if at % 4 == 0 {
            Command::Open { handle }
        } else if at % 4 == 1 {
            Command::Bind { handle, endpoint: Endpoint::Tcp { port } }
        } else if at % 4 == 2 {
            Command::Bind { handle, endpoint: Endpoint::Inproc(LocalAddress::Sync { port }) }
        } else {
            Command::Receive { handle }
        }
    } else {
        Command::Send {
            handle: Handle::Reply { slot: (5 * total - 1 - at) as u32 },
            signal: Signal::Acknowledge,
        }
    }
}

/// Everything a barrier for `total` participants asks for, in order.
pub open spec fn barrier_script(total: nat) -> Seq<Command> {
    Seq::new(5 * total, |at: int| scripted(total, at as nat))
}

/// The barrier for `total` participants after the outcomes of its
/// operations were reported in the order of `outcomes`, `true` for carried
/// out and `false` for failed.
pub open spec fn run(total: nat, outcomes: Seq<bool>) -> BarrierView
    decreases outcomes.len(),
{
    if outcomes.len() == 0 {
        BarrierView::initial(total)
    } else if outcomes.last() {
        run(total, outcomes.drop_last()).completed()
    } else {
        run(total, outcomes.drop_last()).failed()
    }
}

/// Whether the first `count` outcomes are there and are all successes.
pub open spec fn all_carried_out(outcomes: Seq<bool>, count: nat) -> bool {
    outcomes.len() >= count && forall|i: int| 0 <= i < count ==> outcomes[i]
}

/// Whether `at` is the position of the first failure in `outcomes`.
pub open spec fn first_failure(outcomes: Seq<bool>, at: int) -> bool {
    &&& 0 <= at < outcomes.len()
    &&& !outcomes[at]
    &&& forall|i: int| 0 <= i < at ==> outcomes[i]
}

/// Carrying out or failing the pending operation keeps a barrier well
/// formed.
pub proof fn lemma_step_keeps_wf(barrier: BarrierView)
    requires
        barrier.wf(),
    ensures
        barrier.completed().wf(),
        barrier.failed().wf(),
{
}

/// A released barrier has a session for each of its participants, each under
/// its own identifier and each answered.
pub proof fn lemma_released_means_all_acknowledged(barrier: BarrierView)
    requires
        barrier.wf(),
        barrier.released(),
    ensures
        barrier.sessions.len() == barrier.total,
        forall|k: int|
            0 <= k < barrier.total ==> (#[trigger] barrier.sessions[k]) == session_of(
                k as u32,
                SessionState::AckSent,
            ),
{
}

/// While the barrier waits for a request, nobody has been answered; and
/// when it answers, everybody has been heard.
pub proof fn lemma_no_reply_before_all_requests(barrier: BarrierView)
    requires
        barrier.wf(),
    ensures
        barrier.stage is Collecting ==> forall|k: int|
            0 <= k < barrier.sessions.len() ==> (#[trigger] barrier.sessions[k]).state
                != SessionState::AckSent,
        barrier.pending() matches Some(Command::Send { .. }) ==> barrier.sessions.len()
            == barrier.total && forall|k: int|
            0 <= k < barrier.total ==> (#[trigger] barrier.sessions[k]).state
                != SessionState::AwaitingConnection,
{
}

/// One operation touches at most one session: it begins the session of the
/// next slot, waiting for the request, or it moves one session on to its next
/// state. So every session is begun once, hears its request once and is
/// answered once.
pub proof fn lemma_one_session_moves(barrier: BarrierView)
    requires
        barrier.wf(),
    ensures
        ({
            let before = barrier.sessions;
            let after = barrier.completed().sessions;
            &&& before.len() <= after.len() <= before.len() + 1
            &&& forall|k: int|
                0 <= k < before.len() ==> #[trigger] after[k] == before[k] || (after[k].id
                    == before[k].id && after[k].state.follows(before[k].state))
            &&& forall|j: int, k: int|
                0 <= j < k < before.len() ==> #[trigger] after[j] == before[j]
                    || #[trigger] after[k] == before[k]
            &&& after.len() > before.len() ==> after.last() == session_of(
                before.len() as u32,
                SessionState::AwaitingConnection,
            ) && after.drop_last() == before
        }),
{
    let after = barrier.completed().sessions;
    if after.len() > barrier.sessions.len() {
        assert(after.drop_last() =~= barrier.sessions);
    }
}

/// On a barrier on which nothing has failed, carrying out the pending
/// operation raises the count of operations carried out by one. The barrier
/// is released exactly when the count is five times the number of
/// participants.
pub proof fn lemma_progress(barrier: BarrierView)
    requires
        barrier.wf(),
        !(barrier.stage is Failed),
    ensures
        barrier.progress() <= 5 * barrier.total,
        barrier.released() <==> barrier.progress() == 5 * barrier.total,
        !barrier.released() ==> barrier.completed().progress() == barrier.progress() + 1,
        !(barrier.completed().stage is Failed),
{
}

/// In the script of a barrier for `total` participants, the request of slot
/// `slot` is awaited at one position only and its reply is sent at one
/// position only, and every request is awaited before any reply is sent.
pub proof fn lemma_one_request_and_one_reply_each(total: nat, slot: u32, at: nat)
    requires
        total <= MAX_PARTICIPANTS,
        slot < total,
        at < 5 * total,
    ensures
        scripted(total, at) == (Command::Receive { handle: Handle::Reply { slot } }) <==> at == 4
            * slot + 3,
        scripted(total, at) == (Command::Send {
            handle: Handle::Reply { slot },
            signal: Signal::Acknowledge,
        }) <==> at == 5 * total - 1 - slot,
        scripted(total, at) is Receive ==> at < 4 * total,
        scripted(total, at) is Send ==> at >= 4 * total,
{
}

/// However the outcomes fall, the barrier follows its script: it is
/// released exactly when the first `5 * total` outcomes are there and are
/// all successes; a failure before that stops it at the operation that
/// failed; and until then the operation it asks for is the one the script
/// has at the number of outcomes reported.
pub proof fn lemma_run_follows_script(total: nat, outcomes: Seq<bool>)
    requires
        total <= MAX_PARTICIPANTS,
    ensures
        run(total, outcomes).wf(),
        run(total, outcomes).total == total,
        run(total, outcomes).released() <==> all_carried_out(outcomes, 5 * total),
        forall|at: int|
            first_failure(outcomes, at) && at < 5 * total ==> run(total, outcomes).stage == (
            BarrierStage::Failed { command: scripted(total, at as nat) }),
        all_carried_out(outcomes, outcomes.len()) && outcomes.len() < 5 * total ==> run(
            total,
            outcomes,
        ).pending() == Some(scripted(total, outcomes.len())) && run(total, outcomes).progress()
            == outcomes.len(),
    decreases outcomes.len(),
{
    let after = run(total, outcomes);
    if outcomes.len() == 0 {
    } else {
        let earlier = outcomes.drop_last();
        let before = run(total, earlier);
        lemma_run_follows_script(total, earlier);
        lemma_step_keeps_wf(before);
        if exists|at: int| first_failure(earlier, at) && at < 5 * total {
            let at = choose|at: int| first_failure(earlier, at) && at < 5 * total;
            assert(before.stage is Failed);
            assert(after == before);
            assert(!outcomes[at]);
            assert forall|other: int|
                first_failure(outcomes, other) && other < 5 * total implies other == at by {
                if other < at {
                    assert(earlier[other]);
                }
                if at < other {
                    assert(outcomes[at]);
                }
            }
        } else if earlier.len() >= 5 * total {
            assert forall|i: int| 0 <= i < 5 * total implies earlier[i] by {
                if !earlier[i] {
                    lemma_has_first_failure(earlier, i);
                }
            }
            assert(all_carried_out(earlier, 5 * total));
            assert(before.released());
            assert(after == before);
            assert forall|i: int| 0 <= i < 5 * total implies outcomes[i] by {
                assert(earlier[i]);
            }
        } else {
            assert forall|i: int| 0 <= i < earlier.len() implies earlier[i] by {
                if !earlier[i] {
                    lemma_has_first_failure(earlier, i);
                }
            }
            assert(all_carried_out(earlier, earlier.len()));
            lemma_progress(before);
            if outcomes.last() {
                assert(after == before.completed());
                assert forall|i: int| 0 <= i < outcomes.len() implies outcomes[i] by {
                    if i < earlier.len() {
                        assert(earlier[i]);
                    }
                }
                lemma_progress(after);
            } else {
                assert(after == before.failed());
                assert(first_failure(outcomes, earlier.len() as int)) by {
                    assert forall|i: int| 0 <= i < earlier.len() implies outcomes[i] by {
                        assert(earlier[i]);
                    }
                }
                assert forall|other: int| first_failure(outcomes, other) implies other
                    == earlier.len() by {
                    if other < earlier.len() {
                        assert(earlier[other]);
                    }
                }
            }
        }
    }
}

/// A sequence with a failure at `at` has a first failure at or before it.
proof fn lemma_has_first_failure(outcomes: Seq<bool>, at: int)
    requires
        0 <= at < outcomes.len(),
        !outcomes[at],
    ensures
        exists|first: int| first_failure(outcomes, first) && first <= at,
    decreases at,
{
    if exists|i: int| 0 <= i < at && !outcomes[i] {
        let i = choose|i: int| 0 <= i < at && !outcomes[i];
        lemma_has_first_failure(outcomes, i);
    } else {
        assert(first_failure(outcomes, at));
    }
}

/// The rendezvous barrier of one engine.
#[derive(Clone, Debug)]
pub struct Barrier {
    total: u64,
    sessions: Vec<BarrierSession>,
    stage: BarrierStage,
}

impl View for Barrier {
    type V = BarrierView;

    closed spec fn view(&self) -> BarrierView {
        BarrierView { total: self.total as nat, sessions: self.sessions@, stage: self.stage }
    }
}

impl Barrier {
    /// A barrier that waits for `total` participants, those with the
    /// identifiers below `total`.
    pub fn new(total: u64) -> (barrier: Barrier)
        requires
            total <= MAX_PARTICIPANTS,
        ensures
            barrier@ == BarrierView::initial(total as nat),
            barrier@.wf(),
    {
        let stage = if total == 0 {
            BarrierStage::Released
        } else {
            BarrierStage::Collecting { step: SlotStep::Open }
        };
        Barrier { total, sessions: Vec::new(), stage }
    }

    /// The number of participants awaited.
    pub fn total(&self) -> (total: u64)
        ensures
            total == self@.total,
    {
        self.total
    }

    /// The sessions begun so far, in ascending order of their slots.
    pub fn sessions(&self) -> (sessions: &Vec<BarrierSession>)
        ensures
            sessions@ == self@.sessions,
    {
        &self.sessions
    }

    /// What the barrier is doing.
    pub fn stage(&self) -> (stage: BarrierStage)
        ensures
            stage == self@.stage,
    {
        self.stage
    }

    /// Whether every participant has been answered.
    pub fn is_released(&self) -> (released: bool)
        ensures
            released == self@.released(),
    {
        match self.stage {
            BarrierStage::Released => true,
            _ => false,
        }
    }

    /// The operation that failed, if one has.
    pub fn failure(&self) -> (failure: Option<Command>)
        ensures
            failure == match self@.stage {
                BarrierStage::Failed { command } => Some(command),
                _ => None,
            },
    {
        match self.stage {
            BarrierStage::Failed { command } => Some(command),
            _ => None,
        }
    }

    /// The operation to carry out next, if there is one.
    pub fn pending(&self) -> (command: Option<Command>)
        requires
            self@.wf(),
        ensures
            command == self@.pending(),
    {
        match self.stage {
            BarrierStage::Collecting { step } => {
                let begun = self.sessions.len();
                let slot = match step {
                    SlotStep::Receive => (begun - 1) as u32,
                    _ => begun as u32,
                };
                let handle = Handle::Reply { slot };
                let port = rendezvous_port(slot);
                match step {
                    SlotStep::Open => Some(Command::Open { handle }),
                    SlotStep::BindNetwork => Some(
                        Command::Bind { handle, endpoint: Endpoint::Tcp { port } },
                    ),
                    SlotStep::BindLocal => Some(
                        Command::Bind {
                            handle,
                            endpoint: Endpoint::Inproc(LocalAddress::Sync { port }),
                        },
                    ),
                    SlotStep::Receive => Some(Command::Receive { handle }),
                }
            },
            BarrierStage::Acknowledging { next } => Some(
                Command::Send { handle: Handle::Reply { slot: next }, signal: Signal::Acknowledge },
            ),
            BarrierStage::Released => None,
            BarrierStage::Failed { .. } => None,
        }
    }

    /// Records that the pending operation has been carried out. A barrier
    /// that asks for nothing stays as it is.
    pub fn complete(&mut self)
        requires
            old(self)@.wf(),
        ensures
            final(self)@ == old(self)@.completed(),
            final(self)@.wf(),
    {
        match self.stage {
            BarrierStage::Collecting { step } => {
                let begun = self.sessions.len();
                match step {
                    SlotStep::Open => {
                        self.stage = BarrierStage::Collecting { step: SlotStep::BindNetwork };
                    },
                    SlotStep::BindNetwork => {
                        self.stage = BarrierStage::Collecting { step: SlotStep::BindLocal };
                    },
                    SlotStep::BindLocal => {
                        let slot = begun as u32;
                        self.sessions.push(
                            BarrierSession {
                                id: slot,
                                port: rendezvous_port(slot),
                                state: SessionState::AwaitingConnection,
                            },
                        );
                        self.stage = BarrierStage::Collecting { step: SlotStep::Receive };
                    },
                    SlotStep::Receive => {
                        let slot = (begun - 1) as u32;
                        self.sessions.set(
                            slot as usize,
                            BarrierSession {
                                id: slot,
                                port: rendezvous_port(slot),
                                state: SessionState::ReceivedReady,
                            },
                        );
                        if begun as u64 == self.total {
                            self.stage = BarrierStage::Acknowledging { next: slot };
                        } else {
                            self.stage = BarrierStage::Collecting { step: SlotStep::Open };
                        }
                    },
                }
            },
            BarrierStage::Acknowledging { next } => {
                self.sessions.set(
                    next as usize,
                    BarrierSession {
                        id: next,
                        port: rendezvous_port(next),
                        state: SessionState::AckSent,
                    },
                );
                if next == 0 {
                    self.stage = BarrierStage::Released;
                } else {
                    self.stage = BarrierStage::Acknowledging { next: next - 1 };
                }
            },
            BarrierStage::Released => {},
            BarrierStage::Failed { .. } => {},
        }
    }

    /// Records that the pending operation has failed. A barrier that asks
    /// for nothing stays as it is.
    pub fn fail(&mut self)
        requires
            old(self)@.wf(),
        ensures
            final(self)@ == old(self)@.failed(),
            final(self)@.wf(),
    {
        match self.pending() {
            Some(command) => {
                self.stage = BarrierStage::Failed { command };
            },
            None => {},
        }
    }
}

} // verus!
