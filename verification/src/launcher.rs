//! The plugin launcher.
//!
//! The launcher takes the plugins in the order of their descriptors. For
//! each it opens a publishing socket into the fan-in endpoint, a subscribing
//! socket out of the fan-out endpoint with one filter for each declared
//! subscription, and the requesting side of the plugin's rendezvous; then it
//! starts the plugin's thread. The thread is started only when all of that
//! has succeeded.

use vstd::prelude::*;
use crate::command::{Command, Handle, Signal};
use crate::config::PluginDescriptor;
use crate::endpoint::{rendezvous_port, rendezvous_port_of, Endpoint, LocalAddress};
use crate::topic::{delivered, lemma_no_subscription_receives_nothing, SubscriptionSet, TopicFilter};

verus! {

/// The operations that wire one plugin, in order. The pair `Resolve`,
/// `Install` occurs once for each subscription.
#[derive(Clone, Copy, Debug, PartialEq, Eq, Hash, Structural)]
pub enum LaunchStep {
    /// Create the publishing socket.
    OpenPublish,
    /// Connect it to the fan-in endpoint.
    ConnectPublish,
    /// Create the subscribing socket.
    OpenSubscribe,
    /// Connect it to the fan-out endpoint.
    ConnectSubscribe,
    /// Resolve the name of the `topic`-th subscription.
    Resolve { topic: usize },
    /// Install the filter of the `topic`-th subscription.
    Install { topic: usize },
    /// Create the requesting socket of the rendezvous.
    OpenRequest,
    /// Connect it to the plugin's slot.
    ConnectRequest,
    /// Start the thread.
    Spawn,
}

/// What the launcher is doing.
#[derive(Clone, Copy, Debug, PartialEq, Eq, Hash, Structural)]
pub enum LaunchStage {
    /// Wiring the next plugin; `step` is the operation asked for next.
    Wiring { step: LaunchStep },
    /// Every plugin runs on its thread.
    Done,
    /// `command` failed, or was answered with an outcome that does not
    /// belong to it. The launcher stays as it was at that moment.
    Failed { command: Command },
}

/// The operations that wire `plugin` and start it, in order.
pub open spec fn wiring_script(plugin: PluginDescriptor) -> Seq<Command> {
    let id = plugin.id;
    seq![
        Command::Open { handle: Handle::Publish { plugin: id } },
        Command::Connect {
            handle: Handle::Publish { plugin: id },
            endpoint: Endpoint::Inproc(LocalAddress::Messages),
        },
        Command::Open { handle: Handle::Subscribe { plugin: id } },
        Command::Connect {
            handle: Handle::Subscribe { plugin: id },
            endpoint: Endpoint::Inproc(LocalAddress::Events),
        },
    ] + Seq::new(
        2 * plugin.subscriptions@.len(),
        |i: int|
            if i % 2 == 0 {
                Command::Resolve { plugin: id, topic: (i / 2) as usize }
            } else {
                Command::Install {
                    handle: Handle::Subscribe { plugin: id },
                    topic: (i / 2) as usize,
                }
            },
    ) + seq![
        Command::Open { handle: Handle::Request { plugin: id } },
        Command::Connect {
            handle: Handle::Request { plugin: id },
            endpoint: Endpoint::Inproc(LocalAddress::Sync { port: rendezvous_port_of(id) }),
        },
        Command::Spawn { plugin: id },
    ]
}

/// What the thread of the plugin `id` does: it tells the barrier that it is
/// ready, waits to be let go, and calls the plugin.
pub open spec fn thread_script(id: u32) -> Seq<Command> {
    seq![
        Command::Send { handle: Handle::Request { plugin: id }, signal: Signal::Ready },
        Command::Receive { handle: Handle::Request { plugin: id } },
        Command::Run { plugin: id },
    ]
}

/// The operations that wire and start `plugins`, one plugin after the
/// other.
pub open spec fn launch_script(plugins: Seq<PluginDescriptor>) -> Seq<Command>
    decreases plugins.len(),
{
    if plugins.len() == 0 {
        Seq::empty()
    } else {
        launch_script(plugins.drop_last()) + wiring_script(plugins.last())
    }
}

/// The position of `step` in the script of a plugin with `subscriptions`
/// subscriptions.
pub open spec fn position(step: LaunchStep, subscriptions: nat) -> nat {
    match step {
        LaunchStep::OpenPublish => 0,
        LaunchStep::ConnectPublish => 1,
        LaunchStep::OpenSubscribe => 2,
        LaunchStep::ConnectSubscribe => 3,
        LaunchStep::Resolve { topic } => 4 + 2 * topic as nat,
        LaunchStep::Install { topic } => 5 + 2 * topic as nat,
        LaunchStep::OpenRequest => 4 + 2 * subscriptions,
        LaunchStep::ConnectRequest => 5 + 2 * subscriptions,
        LaunchStep::Spawn => 6 + 2 * subscriptions,
    }
}

/// The launcher as a mathematical value.
pub struct LauncherView {
    /// The plugins, in launch order.
    pub plugins: Seq<PluginDescriptor>,
    /// For each plugin already started, the filters installed for it.
    pub launched: Seq<Seq<Seq<u8>>>,
    /// The filters resolved so far for the plugin being wired.
    pub wiring: Seq<Seq<u8>>,
    /// What the launcher is doing.
    pub stage: LaunchStage,
}

impl LauncherView {
    /// A launcher for `plugins` that has done nothing yet.
    pub open spec fn initial(plugins: Seq<PluginDescriptor>) -> LauncherView {
        LauncherView {
            plugins,
            launched: Seq::empty(),
            wiring: Seq::empty(),
            stage: if plugins.len() == 0 {
                LaunchStage::Done
            } else {
                LaunchStage::Wiring { step: LaunchStep::OpenPublish }
            },
        }
    }

    /// The number of subscriptions of the plugin being wired.
    pub open spec fn subscriptions(self) -> nat {
        self.plugins[self.launched.len() as int].subscriptions@.len()
    }

    /// What holds of every launcher that exists.
    pub open spec fn wf(self) -> bool {
        &&& self.launched.len() <= self.plugins.len()
        &&& forall|p: int|
            0 <= p < self.launched.len() ==> (#[trigger] self.launched[p]).len()
                == self.plugins[p].subscriptions@.len()
        &&& match self.stage {
            LaunchStage::Wiring { step } => {
                &&& self.launched.len() < self.plugins.len()
                &&& match step {
                    LaunchStep::OpenPublish | LaunchStep::ConnectPublish | LaunchStep::OpenSubscribe
                    | LaunchStep::ConnectSubscribe => self.wiring.len() == 0,
                    LaunchStep::Resolve { topic } => topic < self.subscriptions()
                        && self.wiring.len() == topic,
                    LaunchStep::Install { topic } => topic < self.subscriptions()
                        && self.wiring.len() == topic + 1,
                    LaunchStep::OpenRequest | LaunchStep::ConnectRequest | LaunchStep::Spawn =>
                        self.wiring.len() == self.subscriptions(),
                }
            },
            LaunchStage::Done => self.launched.len() == self.plugins.len() && self.wiring.len()
                == 0,
            LaunchStage::Failed { command } => true,
        }
    }

    /// Whether every plugin has been started.
    pub open spec fn done(self) -> bool {
        self.stage is Done
    }

    /// The number of operations carried out so far, for a launcher that
    /// nothing has stopped: those of the plugins already started, and those
    /// of the plugin being wired.
    pub open spec fn progress(self) -> nat {
        launch_script(self.plugins.take(self.launched.len() as int)).len() + match self.stage {
            LaunchStage::Wiring { step } => position(step, self.subscriptions()),
            _ => 0,
        }
    }

    /// The launcher after the pending operation got the answer that belongs
    /// to it: `filter` for a `Resolve`, a plain completion for any other.
    pub open spec fn answered(self, filter: Seq<u8>) -> LauncherView {
        if self.stage matches LaunchStage::Wiring { step: LaunchStep::Resolve { .. } } {
            self.resolved(filter)
        } else {
            self.completed()
        }
    }

    /// The operation the launcher asks for next, if it asks for one.
    pub open spec fn pending(self) -> Option<Command> {
        match self.stage {
            LaunchStage::Wiring { step } => Some(
                wiring_script(self.plugins[self.launched.len() as int])[position(
                    step,
                    self.subscriptions(),
                ) as int],
            ),
            LaunchStage::Done => None,
            LaunchStage::Failed { command } => None,
        }
    }

    /// The step that follows the subscribing socket's connection and every
    /// installed filter: the next subscription, if `topic` is one.
    pub open spec fn subscription_or_request(self, topic: nat) -> LaunchStep {
        if topic < self.subscriptions() {
            LaunchStep::Resolve { topic: topic as usize }
        } else {
            LaunchStep::OpenRequest
        }
    }

    /// The launcher stopped at the pending operation.
    pub open spec fn failed(self) -> LauncherView {
        match self.pending() {
            Some(command) => LauncherView { stage: LaunchStage::Failed { command }, ..self },
            None => self,
        }
    }

    /// The launcher after the pending operation has been carried out. A
    /// `Resolve` is not answered by this: it is answered with a filter.
    pub open spec fn completed(self) -> LauncherView {
        match self.stage {
            LaunchStage::Wiring { step } => match step {
                LaunchStep::OpenPublish => self.at(LaunchStep::ConnectPublish),
                LaunchStep::ConnectPublish => self.at(LaunchStep::OpenSubscribe),
                LaunchStep::OpenSubscribe => self.at(LaunchStep::ConnectSubscribe),
                LaunchStep::ConnectSubscribe => self.at(self.subscription_or_request(0)),
                LaunchStep::Resolve { topic } => self.failed(),
                LaunchStep::Install { topic } => self.at(
                    self.subscription_or_request(topic as nat + 1),
                ),
                LaunchStep::OpenRequest => self.at(LaunchStep::ConnectRequest),
                LaunchStep::ConnectRequest => self.at(LaunchStep::Spawn),
                LaunchStep::Spawn => LauncherView {
                    launched: self.launched.push(self.wiring),
                    wiring: Seq::empty(),
                    stage: if self.launched.len() + 1 == self.plugins.len() {
                        LaunchStage::Done
                    } else {
                        LaunchStage::Wiring { step: LaunchStep::OpenPublish }
                    },
                    ..self
                },
            },
            LaunchStage::Done => self,
            LaunchStage::Failed { command } => self,
        }
    }

    /// The launcher at `step` of the same plugin.
    pub open spec fn at(self, step: LaunchStep) -> LauncherView {
        LauncherView { stage: LaunchStage::Wiring { step }, ..self }
    }

    /// The launcher after the pending operation was answered with `filter`.
    /// Only a `Resolve` is answered so.
    pub open spec fn resolved(self, filter: Seq<u8>) -> LauncherView {
        match self.stage {
            LaunchStage::Wiring { step: LaunchStep::Resolve { topic } } => LauncherView {
                wiring: self.wiring.push(filter),
                stage: LaunchStage::Wiring { step: LaunchStep::Install { topic } },
                ..self
            },
            _ => self.failed(),
        }
    }
}

/// Whatever the outcome of the pending operation, the launcher stays well
/// formed.
pub proof fn lemma_launch_step_keeps_wf(launcher: LauncherView, filter: Seq<u8>)
    requires
        launcher.wf(),
    ensures
        launcher.completed().wf(),
        launcher.resolved(filter).wf(),
        launcher.failed().wf(),
{
    if launcher.stage is Wiring {
        lemma_subscriptions_bounded(launcher.plugins[launcher.launched.len() as int]);
    }
}

/// A plugin has no more subscriptions than an index can count.
proof fn lemma_subscriptions_bounded(plugin: PluginDescriptor)
    ensures
        plugin.subscriptions@.len() <= usize::MAX,
{
    assert(plugin.subscriptions.len() == plugin.subscriptions@.len());
}

/// The script of a plugin takes seven operations and two more for each
/// subscription. It creates the three sockets of the plugin, resolves and
/// installs the subscriptions in their declared order, and starts the thread
/// with its last operation and with no other.
pub proof fn lemma_wiring_script_shape(plugin: PluginDescriptor)
    ensures
        wiring_script(plugin).len() == 7 + 2 * plugin.subscriptions@.len(),
        wiring_script(plugin)[0] == (Command::Open {
            handle: Handle::Publish { plugin: plugin.id },
        }),
        wiring_script(plugin)[2] == (Command::Open {
            handle: Handle::Subscribe { plugin: plugin.id },
        }),
        wiring_script(plugin)[4 + 2 * plugin.subscriptions@.len() as int] == (Command::Open {
            handle: Handle::Request { plugin: plugin.id },
        }),
        forall|at: int|
            4 <= at < 4 + 2 * plugin.subscriptions@.len() ==> #[trigger] wiring_script(plugin)[at]
                == if (at - 4) % 2 == 0 {
                Command::Resolve { plugin: plugin.id, topic: ((at - 4) / 2) as usize }
            } else {
                Command::Install {
                    handle: Handle::Subscribe { plugin: plugin.id },
                    topic: ((at - 4) / 2) as usize,
                }
            },
        forall|at: int|
            0 <= at < wiring_script(plugin).len() ==> (#[trigger] wiring_script(plugin)[at]
                == (Command::Spawn { plugin: plugin.id }) <==> at == 6 + 2
                * plugin.subscriptions@.len()),
{
}

/// Until the thread is started, every answer that belongs to the pending
/// operation moves the launcher one position down the script of the same
/// plugin: a filter answers a `Resolve` and is kept, in order, for the
/// plugin; a plain completion answers every other operation.
pub proof fn lemma_wiring_advances_by_one(launcher: LauncherView, filter: Seq<u8>)
    requires
        launcher.wf(),
        launcher.stage is Wiring,
        launcher.stage != (LaunchStage::Wiring { step: LaunchStep::Spawn }),
    ensures
        ({
            let step = launcher.stage->Wiring_step;
            let next = if step is Resolve {
                launcher.resolved(filter)
            } else {
                launcher.completed()
            };
            &&& next.stage is Wiring
            &&& position(next.stage->Wiring_step, launcher.subscriptions()) == position(
                step,
                launcher.subscriptions(),
            ) + 1
            &&& next.plugins == launcher.plugins
            &&& next.launched == launcher.launched
            &&& next.wiring == if step is Resolve {
                launcher.wiring.push(filter)
            } else {
                launcher.wiring
            }
        }),
{
    lemma_subscriptions_bounded(launcher.plugins[launcher.launched.len() as int]);
}

/// The script of the first `count` plugins is the beginning of the script of
/// all of them, and each plugin adds its own script to it.
pub proof fn lemma_launch_script_grows(plugins: Seq<PluginDescriptor>, count: int)
    requires
        0 <= count <= plugins.len(),
    ensures
        launch_script(plugins.take(count)).is_prefix_of(launch_script(plugins)),
        count < plugins.len() ==> launch_script(plugins.take(count + 1)) == launch_script(
            plugins.take(count),
        ) + wiring_script(plugins[count]),
    decreases plugins.len() - count,
{
    if count == plugins.len() {
        assert(plugins.take(count) =~= plugins);
    } else {
        let longer = plugins.take(count + 1);
        assert(longer.drop_last() =~= plugins.take(count));
        assert(longer.last() == plugins[count]);
        lemma_launch_script_grows(plugins, count + 1);
        let short = launch_script(plugins.take(count));
        let long = launch_script(longer);
        let whole = launch_script(plugins);
        assert(long == short + wiring_script(plugins[count]));
        assert(short =~= whole.subrange(0, short.len() as int)) by {
            assert(long =~= whole.subrange(0, long.len() as int));
        }
    }
}

/// Where the script of one plugin lies in the script of all: behind the
/// scripts of the plugins before it.
pub proof fn lemma_launch_script_at(plugins: Seq<PluginDescriptor>, index: int, at: int)
    requires
        0 <= index < plugins.len(),
        0 <= at < wiring_script(plugins[index]).len(),
    ensures
        launch_script(plugins.take(index)).len() + at < launch_script(plugins).len(),
        launch_script(plugins)[launch_script(plugins.take(index)).len() + at] == wiring_script(
            plugins[index],
        )[at],
        launch_script(plugins.take(index + 1)).len() == launch_script(plugins.take(index)).len()
            + wiring_script(plugins[index]).len(),
        launch_script(plugins.take(index + 1)).len() <= launch_script(plugins).len(),
{
    let before = launch_script(plugins.take(index));
    let with_current = launch_script(plugins.take(index + 1));
    let whole = launch_script(plugins);
    lemma_launch_script_grows(plugins, index);
    lemma_launch_script_grows(plugins, index + 1);
    assert(with_current == before + wiring_script(plugins[index]));
    assert(with_current =~= whole.subrange(0, with_current.len() as int));
    assert(whole[before.len() + at] == with_current[before.len() + at]);
}

/// The script of all plugins ends with the script of the last one.
pub proof fn lemma_launch_script_end(plugins: Seq<PluginDescriptor>, index: int)
    requires
        0 <= index < plugins.len(),
    ensures
        launch_script(plugins.take(index + 1)).len() == launch_script(plugins).len() <==> index
            + 1 == plugins.len(),
{
    if index + 1 < plugins.len() {
        lemma_launch_script_at(plugins, index + 1, 0);
    } else {
        assert(plugins.take(index + 1) =~= plugins);
    }
}

/// Wiring and starting plugins takes no part in a rendezvous and relays
/// nothing: the script of the plugins holds no `Send`, no `Receive` and no
/// `Relay`.
pub proof fn lemma_launch_script_kinds(plugins: Seq<PluginDescriptor>, at: int)
    requires
        0 <= at < launch_script(plugins).len(),
    ensures
        !(launch_script(plugins)[at] is Send),
        !(launch_script(plugins)[at] is Receive),
        !(launch_script(plugins)[at] is Relay),
    decreases plugins.len(),
{
    if plugins.len() > 0 {
        let earlier = launch_script(plugins.drop_last());
        if at < earlier.len() {
            lemma_launch_script_kinds(plugins.drop_last(), at);
        } else {
            let within = at - earlier.len();
            assert(launch_script(plugins)[at] == wiring_script(plugins.last())[within]);
        }
    }
}

/// A launcher that nothing has stopped asks for the operation that the
/// script of its plugins has at the number of operations carried out.
pub proof fn lemma_launcher_asks_by_script(launcher: LauncherView)
    requires
        launcher.wf(),
        launcher.stage is Wiring,
    ensures
        launcher.progress() < launch_script(launcher.plugins).len(),
        launcher.pending() == Some(launch_script(launcher.plugins)[launcher.progress() as int]),
{
    let current = launcher.launched.len() as int;
    let plugin = launcher.plugins[current];
    lemma_subscriptions_bounded(plugin);
    let at = position(launcher.stage->Wiring_step, launcher.subscriptions()) as int;
    assert(wiring_script(plugin).len() == 7 + 2 * plugin.subscriptions@.len());
    lemma_launch_script_at(launcher.plugins, current, at);
}

/// The answer that belongs to the pending operation raises the number of
/// operations carried out by one, and the launcher is done exactly at the
/// end of the script.
pub proof fn lemma_launcher_advances_by_one(launcher: LauncherView, filter: Seq<u8>)
    requires
        launcher.wf(),
        launcher.stage is Wiring,
    ensures
        !(launcher.answered(filter).stage is Failed),
        launcher.answered(filter).progress() == launcher.progress() + 1,
        launcher.answered(filter).done() <==> launcher.progress() + 1 == launch_script(
            launcher.plugins,
        ).len(),
{
    let plugins = launcher.plugins;
    let current = launcher.launched.len() as int;
    let plugin = plugins[current];
    let count = plugin.subscriptions@.len();
    lemma_subscriptions_bounded(plugin);
    assert(wiring_script(plugin).len() == 7 + 2 * count);
    lemma_launch_script_at(plugins, current, 6 + 2 * count as int);
    lemma_launch_script_end(plugins, current);
    if launcher.stage == (LaunchStage::Wiring { step: LaunchStep::Spawn }) {
        lemma_spawn_ends_wiring(launcher);
    } else {
        lemma_wiring_advances_by_one(launcher, filter);
    }
}

/// Starting the thread ends the wiring of a plugin: the filters resolved
/// for it, one for each of its subscriptions, are what it is subscribed to,
/// and the launcher goes on to the next plugin or is done.
pub proof fn lemma_spawn_ends_wiring(launcher: LauncherView)
    requires
        launcher.wf(),
        launcher.stage == (LaunchStage::Wiring { step: LaunchStep::Spawn }),
    ensures
        launcher.completed().launched == launcher.launched.push(launcher.wiring),
        launcher.wiring.len() == launcher.subscriptions(),
        launcher.completed().done() <==> launcher.launched.len() + 1 == launcher.plugins.len(),
        !launcher.completed().done() ==> launcher.completed().stage == (LaunchStage::Wiring {
            step: LaunchStep::OpenPublish,
        }),
{
}

/// A plugin that declares no subscription has no filter installed and
/// receives nothing, whatever is published.
pub proof fn lemma_unsubscribed_plugin_receives_nothing(
    launcher: LauncherView,
    index: int,
    traffic: Seq<Seq<u8>>,
)
    requires
        launcher.wf(),
        0 <= index < launcher.launched.len(),
        launcher.plugins[index].subscriptions@.len() == 0,
    ensures
        delivered(launcher.launched[index], traffic) == Seq::<Seq<u8>>::empty(),
{
    assert(launcher.launched[index] =~= Seq::<Seq<u8>>::empty());
    lemma_no_subscription_receives_nothing(traffic);
}

/// The plugin launcher of one engine.
#[derive(Debug)]
pub struct Launcher {
    plugins: Vec<PluginDescriptor>,
    launched: Vec<SubscriptionSet>,
    wiring: SubscriptionSet,
    stage: LaunchStage,
}

impl View for Launcher {
    type V = LauncherView;

    closed spec fn view(&self) -> LauncherView {
        LauncherView {
            plugins: self.plugins@,
            launched: self.launched@.map_values(|set: SubscriptionSet| set@),
            wiring: self.wiring@,
            stage: self.stage,
        }
    }
}

/// The commands that the thread of the plugin `id` carries out, in order.
pub fn plugin_thread(id: u32) -> (commands: Vec<Command>)
    ensures
        commands@ == thread_script(id),
{
    let mut commands: Vec<Command> = Vec::new();
    commands.push(Command::Send { handle: Handle::Request { plugin: id }, signal: Signal::Ready });
    commands.push(Command::Receive { handle: Handle::Request { plugin: id } });
    commands.push(Command::Run { plugin: id });
    assert(commands@ =~= thread_script(id));
    commands
}

impl Launcher {
    /// A launcher that will start `plugins` in their order.
    pub fn new(plugins: Vec<PluginDescriptor>) -> (launcher: Launcher)
        ensures
            launcher@ == LauncherView::initial(plugins@),
            launcher@.wf(),
    {
        let stage = if plugins.len() == 0 {
            LaunchStage::Done
        } else {
            LaunchStage::Wiring { step: LaunchStep::OpenPublish }
        };
        let launcher = Launcher {
            plugins,
            launched: Vec::new(),
            wiring: SubscriptionSet::new(),
            stage,
        };
        assert(launcher@.launched =~= Seq::<Seq<Seq<u8>>>::empty());
        launcher
    }

    /// The plugins, in launch order.
    pub fn plugins(&self) -> (plugins: &Vec<PluginDescriptor>)
        ensures
            plugins@ == self@.plugins,
    {
        &self.plugins
    }

    /// What the launcher is doing.
    pub fn stage(&self) -> (stage: LaunchStage)
        ensures
            stage == self@.stage,
    {
        self.stage
    }

    /// Whether every plugin has been started.
    pub fn is_done(&self) -> (done: bool)
        ensures
            done == self@.done(),
    {
        match self.stage {
            LaunchStage::Done => true,
            _ => false,
        }
    }

    /// The operation that stopped the launcher, if one has.
    pub fn failure(&self) -> (failure: Option<Command>)
        ensures
            failure == match self@.stage {
                LaunchStage::Failed { command } => Some(command),
                _ => None,
            },
    {
        match self.stage {
            LaunchStage::Failed { command } => Some(command),
            _ => None,
        }
    }

    /// The number of plugins already started.
    pub fn launched(&self) -> (count: usize)
        ensures
            count == self@.launched.len(),
    {
        self.launched.len()
    }

    /// The filters installed for the `index`-th plugin, once it is started.
    pub fn subscriptions(&self, index: usize) -> (set: Option<&SubscriptionSet>)
        ensures
            set is Some <==> index < self@.launched.len(),
            set matches Some(filters) ==> filters@ == self@.launched[index as int],
    {
        if index < self.launched.len() {
            Some(&self.launched[index])
        } else {
            None
        }
    }

    /// The filters resolved so far for the plugin being wired.
    pub fn wiring(&self) -> (set: &SubscriptionSet)
        ensures
            set@ == self@.wiring,
    {
        &self.wiring
    }

    /// The name to resolve, while a `Resolve` is pending.
    pub fn pending_topic(&self) -> (name: Option<&String>)
        requires
            self@.wf(),
        ensures
            name is Some <==> self@.stage matches LaunchStage::Wiring {
                step: LaunchStep::Resolve { .. },
            },
            self@.stage matches LaunchStage::Wiring { step: LaunchStep::Resolve { topic } }
                ==> name == Some(
                &self@.plugins[self@.launched.len() as int].subscriptions@[topic as int],
            ),
    {
        match self.stage {
            LaunchStage::Wiring { step: LaunchStep::Resolve { topic } } => {
                let plugin = &self.plugins[self.launched.len()];
                Some(&plugin.subscriptions[topic])
            },
            _ => None,
        }
    }

    /// The operation to carry out next, if there is one.
    pub fn pending(&self) -> (command: Option<Command>)
        requires
            self@.wf(),
        ensures
            command == self@.pending(),
    {
        match self.stage {
            LaunchStage::Wiring { step } => {
                let id = self.plugins[self.launched.len()].id;
                let command = match step {
                    LaunchStep::OpenPublish => Command::Open {
                        handle: Handle::Publish { plugin: id },
                    },
                    LaunchStep::ConnectPublish => Command::Connect {
                        handle: Handle::Publish { plugin: id },
                        endpoint: Endpoint::Inproc(LocalAddress::Messages),
                    },
                    LaunchStep::OpenSubscribe => Command::Open {
                        handle: Handle::Subscribe { plugin: id },
                    },
                    LaunchStep::ConnectSubscribe => Command::Connect {
                        handle: Handle::Subscribe { plugin: id },
                        endpoint: Endpoint::Inproc(LocalAddress::Events),
                    },
                    LaunchStep::Resolve { topic } => Command::Resolve { plugin: id, topic },
                    LaunchStep::Install { topic } => Command::Install {
                        handle: Handle::Subscribe { plugin: id },
                        topic,
                    },
                    LaunchStep::OpenRequest => Command::Open {
                        handle: Handle::Request { plugin: id },
                    },
                    LaunchStep::ConnectRequest => Command::Connect {
                        handle: Handle::Request { plugin: id },
                        endpoint: Endpoint::Inproc(
                            LocalAddress::Sync { port: rendezvous_port(id) },
                        ),
                    },
                    LaunchStep::Spawn => Command::Spawn { plugin: id },
                };
                Some(command)
            },
            LaunchStage::Done => None,
            LaunchStage::Failed { .. } => None,
        }
    }

    /// Records that the pending operation has failed. A launcher that asks
    /// for nothing stays as it is.
    pub fn fail(&mut self)
        requires
            old(self)@.wf(),
        ensures
            final(self)@ == old(self)@.failed(),
            final(self)@.wf(),
    {
        match self.pending() {
            Some(command) => {
                self.stage = LaunchStage::Failed { command };
            },
            None => {},
        }
    }

    /// Records that the pending operation has been carried out. A pending
    /// `Resolve` is not answered by this and stops the launcher; a launcher
    /// that asks for nothing stays as it is.
    pub fn complete(&mut self)
        requires
            old(self)@.wf(),
        ensures
            final(self)@ == old(self)@.completed(),
            final(self)@.wf(),
    {
        match self.stage {
            LaunchStage::Wiring { step } => match step {
                LaunchStep::OpenPublish => {
                    self.stage = LaunchStage::Wiring { step: LaunchStep::ConnectPublish };
                },
                LaunchStep::ConnectPublish => {
                    self.stage = LaunchStage::Wiring { step: LaunchStep::OpenSubscribe };
                },
                LaunchStep::OpenSubscribe => {
                    self.stage = LaunchStage::Wiring { step: LaunchStep::ConnectSubscribe };
                },
                LaunchStep::ConnectSubscribe => {
                    let count = self.plugins[self.launched.len()].subscriptions.len();
                    let step = if 0 < count {
                        LaunchStep::Resolve { topic: 0 }
                    } else {
                        LaunchStep::OpenRequest
                    };
                    self.stage = LaunchStage::Wiring { step };
                },
                LaunchStep::Resolve { .. } => {
                    self.fail();
                },
                LaunchStep::Install { topic } => {
                    let count = self.plugins[self.launched.len()].subscriptions.len();
                    let step = if topic + 1 < count {
                        LaunchStep::Resolve { topic: topic + 1 }
                    } else {
                        LaunchStep::OpenRequest
                    };
                    self.stage = LaunchStage::Wiring { step };
                },
                LaunchStep::OpenRequest => {
                    self.stage = LaunchStage::Wiring { step: LaunchStep::ConnectRequest };
                },
                LaunchStep::ConnectRequest => {
                    self.stage = LaunchStage::Wiring { step: LaunchStep::Spawn };
                },
                LaunchStep::Spawn => {
                    let mut installed = SubscriptionSet::new();
                    std::mem::swap(&mut self.wiring, &mut installed);
                    self.launched.push(installed);
                    if self.launched.len() == self.plugins.len() {
                        self.stage = LaunchStage::Done;
                    } else {
                        self.stage = LaunchStage::Wiring { step: LaunchStep::OpenPublish };
                    }
                    assert(self@.launched =~= old(self)@.launched.push(old(self)@.wiring));
                },
            },
            LaunchStage::Done => {},
            LaunchStage::Failed { .. } => {},
        }
    }

    /// Records that the pending `Resolve` has given `filter`. Any other
    /// pending operation is not answered by this and stops the launcher; a
    /// launcher that asks for nothing stays as it is.
    pub fn resolved(&mut self, filter: Vec<u8>)
        requires
            old(self)@.wf(),
        ensures
            final(self)@ == old(self)@.resolved(filter@),
            final(self)@.wf(),
    {
        match self.stage {
            LaunchStage::Wiring { step: LaunchStep::Resolve { topic } } => {
                self.wiring.subscribe(TopicFilter::new(filter));
                self.stage = LaunchStage::Wiring { step: LaunchStep::Install { topic } };
            },
            _ => {
                self.fail();
            },
        }
    }
}

} // verus!
