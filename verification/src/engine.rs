//! The engine: what it asks of the transport, from start to relay.
//!
//! The engine opens its two endpoints, lets the launcher start every plugin,
//! lets the barrier gather every participant, and then relays. It asks for
//! one operation at a time and is told the outcome before it asks for the
//! next. A failed operation stops it for good.

use vstd::prelude::*;
use crate::barrier::{
    barrier_script, lemma_one_request_and_one_reply_each, lemma_progress, lemma_step_keeps_wf,
    session_of, Barrier, BarrierView, SessionState,
};
use crate::command::{Command, Handle, Outcome, Signal};
use crate::config::{
    EngineConfig, ExternalParticipantDescriptor, PluginDescriptor, MAX_PARTICIPANTS,
};
use crate::launcher::{
    launch_script, lemma_launch_script_kinds, lemma_launch_step_keeps_wf,
    lemma_launcher_advances_by_one, lemma_launcher_asks_by_script, lemma_wiring_script_shape,
    Launcher, LauncherView,
};
use crate::topic::accepts;
use crate::transport::{endpoint_command, endpoint_script, relay, relay_command};

verus! {

/// Where the engine is on its way from start to relay.
#[derive(Clone, Copy, Debug, PartialEq, Eq, Hash, Structural)]
pub enum Phase {
    /// Opening the two endpoints.
    Binding,
    /// Wiring and starting the plugins.
    Launching,
    /// Gathering the participants at the barrier.
    Synchronizing,
    /// Forwarding from the fan-in endpoint to the fan-out endpoint.
    Relaying,
    /// The relay has returned.
    Stopped,
    /// `command` failed, or was answered with an outcome that does not
    /// belong to it.
    Failed { command: Command },
}

/// Everything an engine for `plugins` and `externals` external participants
/// asks for, in order: it opens the endpoints, wires and starts each plugin,
/// takes every participant through the barrier, and relays.
pub open spec fn engine_script(plugins: Seq<PluginDescriptor>, externals: nat) -> Seq<Command> {
    endpoint_script() + launch_script(plugins) + barrier_script(plugins.len() + externals)
        + seq![relay_command()]
}

/// The phase that the launcher and the barrier have reached between them.
pub open spec fn phase_reached(launcher: LauncherView, barrier: BarrierView) -> Phase {
    if !launcher.done() {
        Phase::Launching
    } else if !barrier.released() {
        Phase::Synchronizing
    } else {
        Phase::Relaying
    }
}

/// The engine as a mathematical value.
pub struct EngineView {
    /// How many operations of the endpoint script have been carried out.
    pub bound: nat,
    /// The launcher.
    pub launcher: LauncherView,
    /// The participants outside this process.
    pub externals: Seq<ExternalParticipantDescriptor>,
    /// The barrier.
    pub barrier: BarrierView,
    /// Where the engine is.
    pub phase: Phase,
}

impl EngineView {
    /// The number of participants: plugins and external ones together.
    pub open spec fn participants(self) -> nat {
        self.launcher.plugins.len() + self.externals.len()
    }

    /// What holds of every engine that exists.
    pub open spec fn wf(self) -> bool {
        &&& self.launcher.wf()
        &&& self.barrier.wf()
        &&& self.barrier.total == self.participants()
        &&& self.bound <= endpoint_script().len()
        &&& match self.phase {
            Phase::Binding => {
                &&& self.bound < endpoint_script().len()
                &&& self.launcher == LauncherView::initial(self.launcher.plugins)
                &&& self.barrier == BarrierView::initial(self.barrier.total)
            },
            Phase::Launching => {
                &&& self.bound == endpoint_script().len()
                &&& self.launcher.stage is Wiring
                &&& self.barrier == BarrierView::initial(self.barrier.total)
            },
            Phase::Synchronizing => {
                &&& self.bound == endpoint_script().len()
                &&& self.launcher.done()
                &&& (self.barrier.stage is Collecting || self.barrier.stage is Acknowledging)
            },
            Phase::Relaying | Phase::Stopped => {
                &&& self.bound == endpoint_script().len()
                &&& self.launcher.done()
                &&& self.barrier.released()
            },
            Phase::Failed { command } => true,
        }
    }

    /// Whether the engine forwards messages.
    pub open spec fn relaying(self) -> bool {
        self.phase is Relaying
    }

    /// Everything this engine asks for, in order.
    pub open spec fn script(self) -> Seq<Command> {
        engine_script(self.launcher.plugins, self.externals.len())
    }

    /// The number of operations carried out so far, for an engine that
    /// nothing has stopped.
    pub open spec fn progress(self) -> nat {
        self.bound + self.launcher.progress() + self.barrier.progress() + if self.phase
            is Stopped {
            1nat
        } else {
            0nat
        }
    }

    /// The operation the engine asks for next, if it asks for one.
    pub open spec fn pending(self) -> Option<Command> {
        match self.phase {
            Phase::Binding => Some(endpoint_script()[self.bound as int]),
            Phase::Launching => self.launcher.pending(),
            Phase::Synchronizing => self.barrier.pending(),
            Phase::Relaying => Some(relay_command()),
            Phase::Stopped => None,
            Phase::Failed { command } => None,
        }
    }

    /// The engine stopped at the pending operation.
    pub open spec fn failed(self) -> EngineView {
        match self.pending() {
            Some(command) => EngineView { phase: Phase::Failed { command }, ..self },
            None => self,
        }
    }

    /// The engine after the pending operation has been carried out. A
    /// `Resolve` is not answered by this: it is answered with a filter.
    pub open spec fn completed(self) -> EngineView {
        match self.phase {
            Phase::Binding => EngineView {
                bound: self.bound + 1,
                phase: if self.bound + 1 < endpoint_script().len() {
                    Phase::Binding
                } else {
                    phase_reached(self.launcher, self.barrier)
                },
                ..self
            },
            Phase::Launching => if self.pending() matches Some(Command::Resolve { .. }) {
                self.failed()
            } else {
                EngineView {
                    launcher: self.launcher.completed(),
                    phase: phase_reached(self.launcher.completed(), self.barrier),
                    ..self
                }
            },
            Phase::Synchronizing => EngineView {
                barrier: self.barrier.completed(),
                phase: phase_reached(self.launcher, self.barrier.completed()),
                ..self
            },
            Phase::Relaying => EngineView { phase: Phase::Stopped, ..self },
            Phase::Stopped => self,
            Phase::Failed { command } => self,
        }
    }

    /// The engine after the pending operation was answered with `filter`.
    /// Only a `Resolve` is answered so.
    pub open spec fn resolved(self, filter: Seq<u8>) -> EngineView {
        if self.phase is Launching && self.pending() matches Some(Command::Resolve { .. }) {
            EngineView { launcher: self.launcher.resolved(filter), ..self }
        } else {
            self.failed()
        }
    }

    /// The engine after the pending operation got the answer that belongs to
    /// it: `filter` for a `Resolve`, a plain completion for any other.
    pub open spec fn answered(self, filter: Seq<u8>) -> EngineView {
        if self.pending() matches Some(Command::Resolve { .. }) {
            self.resolved(filter)
        } else {
            self.completed()
        }
    }

    /// The engine after `outcome` was reported of the pending operation.
    pub open spec fn reported(self, outcome: Outcome) -> EngineView {
        match outcome {
            Outcome::Completed => self.completed(),
            Outcome::Resolved(filter) => self.resolved(filter@),
            Outcome::Failed => self.failed(),
        }
    }

    /// Whether the `index`-th plugin receives `message` when it is published
    /// now: the engine relays, and a filter of the plugin is a prefix of the
    /// message.
    pub open spec fn delivers(self, index: int, message: Seq<u8>) -> bool {
        &&& self.relaying()
        &&& 0 <= index < self.launcher.launched.len()
        &&& accepts(self.launcher.launched[index], message)
    }
}

/// Whatever outcome is reported, the engine stays well formed.
pub proof fn lemma_report_keeps_wf(engine: EngineView, outcome: Outcome)
    requires
        engine.wf(),
    ensures
        engine.reported(outcome).wf(),
{
    lemma_step_keeps_wf(engine.barrier);
    match outcome {
        Outcome::Resolved(filter) => lemma_launch_step_keeps_wf(engine.launcher, filter@),
        _ => lemma_launch_step_keeps_wf(engine.launcher, Seq::empty()),
    }
}

/// The engine relays only behind a barrier that has heard and answered every
/// participant: when it relays, or asks for the relay, every plugin has been
/// started and the barrier holds one answered session for each participant,
/// plugins and external ones together.
pub proof fn lemma_relay_only_after_barrier(engine: EngineView)
    requires
        engine.wf(),
        engine.relaying() || engine.pending() == Some(relay_command()),
    ensures
        engine.relaying(),
        engine.launcher.launched.len() == engine.launcher.plugins.len(),
        engine.barrier.sessions.len() == engine.participants(),
        forall|k: int|
            0 <= k < engine.participants() ==> (#[trigger] engine.barrier.sessions[k])
                == session_of(k as u32, SessionState::AckSent),
{
    if engine.phase is Launching {
        lemma_wiring_script_shape(engine.launcher.plugins[engine.launcher.launched.len() as int]);
    }
}

/// What it means that `engine` follows its script for one operation: it
/// asks for the operation that the script has at the number of operations
/// carried out, and the answer that belongs to the operation, with `filter`
/// where a filter is asked for, raises that number by one and stops nothing.
pub open spec fn follows_script(engine: EngineView, filter: Seq<u8>) -> bool {
    &&& engine.progress() < engine.script().len()
    &&& engine.pending() == Some(engine.script()[engine.progress() as int])
    &&& !(engine.answered(filter).phase is Failed)
    &&& engine.answered(filter).script() == engine.script()
    &&& engine.answered(filter).progress() == engine.progress() + 1
}

/// The launcher of an engine has carried out nothing before it is asked,
/// and everything once it is done; the barrier has carried out nothing
/// before it is asked.
proof fn lemma_idle_parts(engine: EngineView)
    requires
        engine.wf(),
    ensures
        engine.launcher == LauncherView::initial(engine.launcher.plugins)
            ==> engine.launcher.progress() == 0,
        engine.launcher.done() ==> engine.launcher.progress() == launch_script(
            engine.launcher.plugins,
        ).len(),
        engine.barrier == BarrierView::initial(engine.barrier.total) ==> engine.barrier.progress()
            == 0,
        engine.script().len() == endpoint_script().len() + launch_script(
            engine.launcher.plugins,
        ).len() + 5 * engine.participants() + 1,
{
    let plugins = engine.launcher.plugins;
    if engine.launcher == LauncherView::initial(plugins) {
        assert(plugins.take(0) =~= Seq::<PluginDescriptor>::empty());
    }
    if engine.launcher.done() {
        assert(plugins.take(plugins.len() as int) =~= plugins);
    }
}

/// While it opens its endpoints, the engine follows its script.
proof fn lemma_binding_follows_script(engine: EngineView, filter: Seq<u8>)
    requires
        engine.wf(),
        engine.phase is Binding,
    ensures
        follows_script(engine, filter),
{
    lemma_idle_parts(engine);
    lemma_idle_parts(engine.completed());
    assert(engine.script()[engine.bound as int] == endpoint_script()[engine.bound as int]);
}

/// While it launches the plugins, the engine follows its script.
proof fn lemma_launching_follows_script(engine: EngineView, filter: Seq<u8>)
    requires
        engine.wf(),
        engine.phase is Launching,
    ensures
        follows_script(engine, filter),
{
    let launcher = engine.launcher;
    lemma_idle_parts(engine);
    lemma_launcher_asks_by_script(launcher);
    lemma_launcher_advances_by_one(launcher, filter);
    lemma_launch_step_keeps_wf(launcher, filter);
    lemma_wiring_script_shape(launcher.plugins[launcher.launched.len() as int]);
    assert(engine.answered(filter).launcher == launcher.answered(filter));
    let at = engine.progress() as int;
    let within = launcher.progress() as int;
    assert(at == endpoint_script().len() + within);
    assert(engine.script()[at] == launch_script(launcher.plugins)[within]);
}

/// While it holds the participants at the barrier, the engine follows its
/// script.
proof fn lemma_synchronizing_follows_script(engine: EngineView, filter: Seq<u8>)
    requires
        engine.wf(),
        engine.phase is Synchronizing,
    ensures
        follows_script(engine, filter),
{
    let barrier = engine.barrier;
    lemma_idle_parts(engine);
    lemma_progress(barrier);
    lemma_step_keeps_wf(barrier);
    let at = engine.progress() as int;
    let within = barrier.progress() as int;
    let before = endpoint_script().len() + launch_script(engine.launcher.plugins).len();
    assert(at == before + within);
    assert(engine.script()[at] == barrier_script(barrier.total)[within]);
}

/// However far it has come, an engine that asks for an operation follows
/// its script; and it asks for none only when something has stopped it or
/// the script is through.
pub proof fn lemma_engine_follows_script(engine: EngineView, filter: Seq<u8>)
    requires
        engine.wf(),
    ensures
        engine.pending() is Some ==> follows_script(engine, filter),
        engine.pending() is None ==> engine.phase is Failed || (engine.phase is Stopped
            && engine.progress() == engine.script().len()),
        engine.relaying() <==> !(engine.phase is Failed) && engine.progress() + 1
            == engine.script().len(),
{
    lemma_idle_parts(engine);
    match engine.phase {
        Phase::Binding => lemma_binding_follows_script(engine, filter),
        Phase::Launching => {
            lemma_launching_follows_script(engine, filter);
        },
        Phase::Synchronizing => {
            lemma_synchronizing_follows_script(engine, filter);
            lemma_progress(engine.barrier);
        },
        Phase::Relaying => {
            let at = engine.progress() as int;
            assert(engine.script()[at] == relay_command());
        },
        _ => {},
    }
}

/// In the script of an engine, the request of every participant is awaited
/// at one position only, its reply is sent at one position only, every
/// request is awaited before any reply is sent, and the relay is asked for
/// at the very end and nowhere else: one request in and one reply out for
/// each participant, all of them before anything is relayed.
pub proof fn lemma_script_has_one_rendezvous_each(
    plugins: Seq<PluginDescriptor>,
    externals: nat,
    slot: u32,
    at: int,
)
    requires
        plugins.len() + externals <= MAX_PARTICIPANTS,
        slot < plugins.len() + externals,
        0 <= at < engine_script(plugins, externals).len(),
    ensures
        ({
            let script = engine_script(plugins, externals);
            let total = plugins.len() + externals;
            let barrier_begins = endpoint_script().len() + launch_script(plugins).len();
            &&& script.len() == barrier_begins + 5 * total + 1
            &&& script[at] == (Command::Receive { handle: Handle::Reply { slot } }) <==> at
                == barrier_begins + 4 * slot + 3
            &&& script[at] == (Command::Send {
                handle: Handle::Reply { slot },
                signal: Signal::Acknowledge,
            }) <==> at == barrier_begins + 5 * total - 1 - slot
            &&& script[at] is Receive ==> at < barrier_begins + 4 * total
            &&& script[at] is Send ==> barrier_begins + 4 * total <= at
            &&& script[at] is Relay <==> at == script.len() - 1
        }),
{
    let script = engine_script(plugins, externals);
    let total = plugins.len() + externals;
    let endpoints = endpoint_script().len() as int;
    let barrier_begins = endpoints + launch_script(plugins).len();
    if at < endpoints {
        assert(script[at] == endpoint_script()[at]);
    } else if at < barrier_begins {
        assert(script[at] == launch_script(plugins)[at - endpoints]);
        lemma_launch_script_kinds(plugins, at - endpoints);
    } else if at < barrier_begins + 5 * total {
        let within = (at - barrier_begins) as nat;
        assert(script[at] == barrier_script(total)[within as int]);
        lemma_one_request_and_one_reply_each(total, slot, within);
    } else {
        assert(script[at] == relay_command());
    }
}

/// A plugin that declares no subscription is never delivered anything,
/// whatever is published and however far the engine has come.
pub proof fn lemma_unsubscribed_plugin_is_delivered_nothing(
    engine: EngineView,
    index: int,
    message: Seq<u8>,
)
    requires
        engine.wf(),
        0 <= index < engine.launcher.plugins.len(),
        engine.launcher.plugins[index].subscriptions@.len() == 0,
    ensures
        !engine.delivers(index, message),
{
    if 0 <= index < engine.launcher.launched.len() {
        assert(engine.launcher.launched[index].len() == 0);
    }
}

/// A plugin with one subscription is delivered a message exactly when the
/// engine relays and the message starts with the filter that was resolved
/// for the subscription.
pub proof fn lemma_subscribed_plugin_is_delivered_what_matches(
    engine: EngineView,
    index: int,
    message: Seq<u8>,
)
    requires
        engine.wf(),
        0 <= index < engine.launcher.launched.len(),
        engine.launcher.plugins[index].subscriptions@.len() == 1,
    ensures
        engine.delivers(index, message) <==> engine.relaying()
            && engine.launcher.launched[index][0].is_prefix_of(message),
{
    let filters = engine.launcher.launched[index];
    assert(filters.len() == 1);
    if filters[0].is_prefix_of(message) {
        assert(accepts(filters, message));
    }
}

/// A failure is final: an engine that has been stopped by one stays as it
/// is whatever is reported to it, and never relays. So does an engine whose
/// relay has returned.
pub proof fn lemma_failure_is_final(engine: EngineView, outcome: Outcome)
    requires
        engine.phase is Failed || engine.phase is Stopped,
    ensures
        engine.reported(outcome) == engine,
        !engine.reported(outcome).relaying(),
{
}

/// The engine does things in order: no plugin is wired before both endpoints
/// are open, the barrier opens no slot before every plugin is started, and
/// nothing is relayed while a participant is missing.
pub proof fn lemma_startup_order(engine: EngineView)
    requires
        engine.wf(),
        !(engine.phase is Failed),
    ensures
        engine.launcher != LauncherView::initial(engine.launcher.plugins) ==> engine.bound
            == endpoint_script().len(),
        engine.barrier != BarrierView::initial(engine.barrier.total) ==> engine.launcher.done(),
        !engine.barrier.released() ==> !engine.relaying() && forall|index: int, message: Seq<u8>|
            !engine.delivers(index, message),
{
}

/// The event engine.
#[derive(Debug)]
pub struct Engine {
    bound: usize,
    launcher: Launcher,
    externals: Vec<ExternalParticipantDescriptor>,
    barrier: Barrier,
    phase: Phase,
}

impl View for Engine {
    type V = EngineView;

    closed spec fn view(&self) -> EngineView {
        EngineView {
            bound: self.bound as nat,
            launcher: self.launcher@,
            externals: self.externals@,
            barrier: self.barrier@,
            phase: self.phase,
        }
    }
}

impl Engine {
    /// An engine for the participants of `config` that has done nothing yet.
    pub fn new(config: EngineConfig) -> (engine: Engine)
        requires
            config.wf(),
        ensures
            engine@.wf(),
            engine@.bound == 0,
            engine@.phase == Phase::Binding,
            engine@.launcher == LauncherView::initial(config.spec_plugins()),
            engine@.externals == config.spec_externals(),
            engine@.barrier == BarrierView::initial(config.spec_participant_count()),
    {
        let total = config.participant_count();
        let (plugins, externals) = config.into_parts();
        Engine {
            bound: 0,
            launcher: Launcher::new(plugins),
            externals,
            barrier: Barrier::new(total),
            phase: Phase::Binding,
        }
    }

    /// Where the engine is.
    pub fn phase(&self) -> (phase: Phase)
        ensures
            phase == self@.phase,
    {
        self.phase
    }

    /// Whether the engine forwards messages.
    pub fn is_relaying(&self) -> (relaying: bool)
        ensures
            relaying == self@.relaying(),
    {
        match self.phase {
            Phase::Relaying => true,
            _ => false,
        }
    }

    /// The operation that stopped the engine, if one has.
    pub fn failure(&self) -> (failure: Option<Command>)
        ensures
            failure == match self@.phase {
                Phase::Failed { command } => Some(command),
                _ => None,
            },
    {
        match self.phase {
            Phase::Failed { command } => Some(command),
            _ => None,
        }
    }

    /// The launcher.
    pub fn launcher(&self) -> (launcher: &Launcher)
        ensures
            launcher@ == self@.launcher,
    {
        &self.launcher
    }

    /// The barrier.
    pub fn barrier(&self) -> (barrier: &Barrier)
        ensures
            barrier@ == self@.barrier,
    {
        &self.barrier
    }

    /// The participants outside this process.
    pub fn externals(&self) -> (externals: &Vec<ExternalParticipantDescriptor>)
        ensures
            externals@ == self@.externals,
    {
        &self.externals
    }

    /// The number of participants the barrier waits for.
    pub fn participant_count(&self) -> (count: u64)
        requires
            self@.wf(),
        ensures
            count == self@.participants(),
    {
        self.barrier.total()
    }

    /// The operation to carry out next, if there is one.
    pub fn pending(&self) -> (command: Option<Command>)
        requires
            self@.wf(),
        ensures
            command == self@.pending(),
    {
        match self.phase {
            Phase::Binding => endpoint_command(self.bound),
            Phase::Launching => self.launcher.pending(),
            Phase::Synchronizing => self.barrier.pending(),
            Phase::Relaying => Some(relay()),
            Phase::Stopped => None,
            Phase::Failed { .. } => None,
        }
    }

    /// The phase that the launcher and the barrier have reached.
    fn phase_reached(&self) -> (phase: Phase)
        ensures
            phase == phase_reached(self@.launcher, self@.barrier),
    {
        if !self.launcher.is_done() {
            Phase::Launching
        } else if !self.barrier.is_released() {
            Phase::Synchronizing
        } else {
            Phase::Relaying
        }
    }

    /// Stops the engine at the pending operation.
    fn stop(&mut self)
        requires
            old(self)@.wf(),
        ensures
            final(self)@ == old(self)@.failed(),
            final(self)@.wf(),
    {
        match self.pending() {
            Some(command) => {
                self.phase = Phase::Failed { command };
            },
            None => {},
        }
    }

    /// Records the outcome of the pending operation. A failure stops the
    /// engine at that operation, and so does an outcome that does not belong
    /// to it: a filter where none was asked for, or a plain completion of a
    /// `Resolve`. An engine that asks for nothing stays as it is.
    pub fn report(&mut self, outcome: Outcome)
        requires
            old(self)@.wf(),
        ensures
            final(self)@ == old(self)@.reported(outcome),
            final(self)@.wf(),
    {
        let pending = self.pending();
        match outcome {
            Outcome::Failed => {
                self.stop();
            },
            Outcome::Resolved(filter) => {
                match (self.phase, pending) {
                    (Phase::Launching, Some(Command::Resolve { .. })) => {
                        self.launcher.resolved(filter);
                    },
                    _ => {
                        self.stop();
                    },
                }
            },
            Outcome::Completed => {
                match self.phase {
                    Phase::Binding => {
                        self.bound = self.bound + 1;
                        if endpoint_command(self.bound).is_none() {
                            self.phase = self.phase_reached();
                        }
                    },
                    Phase::Launching => {
                        match pending {
                            Some(Command::Resolve { .. }) => {
                                self.stop();
                            },
                            _ => {
                                self.launcher.complete();
                                self.phase = self.phase_reached();
                            },
                        }
                    },
                    Phase::Synchronizing => {
                        self.barrier.complete();
                        self.phase = self.phase_reached();
                    },
                    Phase::Relaying => {
                        self.phase = Phase::Stopped;
                    },
                    Phase::Stopped => {},
                    Phase::Failed { .. } => {},
                }
            },
        }
    }

    /// What the relay does with a message that arrives at the fan-in
    /// endpoint: it forwards the message as it is, once the engine relays,
    /// and nothing before.
    pub fn forward(&self, message: Vec<u8>) -> (forwarded: Option<Vec<u8>>)
        ensures
            forwarded == if self@.relaying() {
                Some(message)
            } else {
                None
            },
    {
        if self.is_relaying() {
            Some(message)
        } else {
            None
        }
    }

    /// Whether the `index`-th plugin receives `message` when it is published
    /// now.
    pub fn delivers(&self, index: usize, message: &[u8]) -> (received: bool)
        ensures
            received == self@.delivers(index as int, message@),
    {
        if !self.is_relaying() {
            return false;
        }
        match self.launcher.subscriptions(index) {
            Some(filters) => filters.accepts(message),
            None => false,
        }
    }
}

} // verus!
