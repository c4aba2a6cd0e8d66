//! The vocabulary between the engine and the transport that serves it: the
//! sockets the engine names, the operations it asks for, and what the
//! transport answers.

use vstd::prelude::*;
use crate::endpoint::Endpoint;

verus! {

/// The messaging pattern a socket is opened with.
#[derive(Clone, Copy, Debug, PartialEq, Eq, Hash, Structural)]
pub enum SocketKind {
    /// Sends to every connected subscriber.
    Publish,
    /// Receives what passes its installed prefixes.
    Subscribe,
    /// Sends one request, then awaits one reply.
    Request,
    /// Awaits one request, then sends one reply.
    Reply,
}

/// Names one socket of the engine.
#[derive(Clone, Copy, Debug, PartialEq, Eq, Hash, Structural)]
pub enum Handle {
    /// The broker's fan-out socket.
    Egress,
    /// The broker's fan-in socket.
    Ingress,
    /// The socket on which a plugin publishes.
    Publish { plugin: u32 },
    /// The socket on which a plugin receives.
    Subscribe { plugin: u32 },
    /// A plugin's side of its rendezvous.
    Request { plugin: u32 },
    /// The barrier's side of the rendezvous of one slot.
    Reply { slot: u32 },
}

impl Handle {
    /// The pattern the socket behind this handle follows.
    pub open spec fn spec_kind(self) -> SocketKind {
        match self {
            Handle::Egress => SocketKind::Publish,
            Handle::Ingress => SocketKind::Subscribe,
            Handle::Publish { .. } => SocketKind::Publish,
            Handle::Subscribe { .. } => SocketKind::Subscribe,
            Handle::Request { .. } => SocketKind::Request,
            Handle::Reply { .. } => SocketKind::Reply,
        }
    }

    /// The pattern to open the socket behind this handle with.
    pub fn kind(&self) -> (kind: SocketKind)
        ensures
            kind == self.spec_kind(),
    {
        match self {
            Handle::Egress => SocketKind::Publish,
            Handle::Ingress => SocketKind::Subscribe,
            Handle::Publish { .. } => SocketKind::Publish,
            Handle::Subscribe { .. } => SocketKind::Subscribe,
            Handle::Request { .. } => SocketKind::Request,
            Handle::Reply { .. } => SocketKind::Reply,
        }
    }

    /// Whether the socket belongs to a rendezvous.
    pub open spec fn spec_is_rendezvous(self) -> bool {
        self is Request || self is Reply
    }

    /// Whether the socket belongs to a rendezvous.
    pub fn is_rendezvous(&self) -> (yes: bool)
        ensures
            yes == self.spec_is_rendezvous(),
    {
        match self {
            Handle::Request { .. } => true,
            Handle::Reply { .. } => true,
            _ => false,
        }
    }
}

/// The two messages of a rendezvous.
#[derive(Clone, Copy, Debug, PartialEq, Eq, Hash, Structural)]
pub enum Signal {
    /// A participant tells the barrier that it listens.
    Ready,
    /// The barrier lets a participant go.
    Acknowledge,
}

impl Signal {
    /// The text that travels for this signal.
    pub open spec fn spec_text(self) -> Seq<char> {
        match self {
            Signal::Ready => "ready"@,
            Signal::Acknowledge => "ok"@,
        }
    }

    /// The text to send for this signal.
    pub fn text(&self) -> (text: &'static str)
        ensures
            text@ == self.spec_text(),
    {
        match self {
            Signal::Ready => "ready",
            Signal::Acknowledge => "ok",
        }
    }
}

/// One operation the engine asks the transport to carry out.
#[derive(Clone, Copy, Debug, PartialEq, Eq, Hash, Structural)]
pub enum Command {
    /// Create the socket behind `handle`, with the pattern `handle.kind()`.
    Open { handle: Handle },
    /// Make the socket reachable at `endpoint`.
    Bind { handle: Handle, endpoint: Endpoint },
    /// Connect the socket to `endpoint`.
    Connect { handle: Handle, endpoint: Endpoint },
    /// Install the empty prefix, which passes every message.
    AcceptAll { handle: Handle },
    /// Resolve the `topic`-th subscription of `plugin` to its filter.
    Resolve { plugin: u32, topic: usize },
    /// Install the filter resolved for the `topic`-th subscription.
    Install { handle: Handle, topic: usize },
    /// Start the thread of `plugin`.
    Spawn { plugin: u32 },
    /// Send `signal` on a rendezvous socket.
    Send { handle: Handle, signal: Signal },
    /// Block until one message arrives on a rendezvous socket.
    Receive { handle: Handle },
    /// Call the entry point of `plugin`.
    Run { plugin: u32 },
    /// Forward every message from `from` to `to`, for as long as both are open.
    Relay { from: Handle, to: Handle },
}

/// The three families of failure. Each of them ends the process.
#[derive(Clone, Copy, Debug, PartialEq, Eq, Hash, Structural)]
pub enum FailureCategory {
    /// A socket could not be created, bound, connected or filtered, a topic
    /// could not be resolved, or a thread could not be started.
    Setup,
    /// A rendezvous message could not be sent or received.
    Handshake,
    /// A plugin returned, or the relay lost its sockets.
    Runtime,
}

impl Command {
    /// The family a failure of this command belongs to.
    pub open spec fn spec_failure_category(self) -> FailureCategory {
        match self {
            Command::Send { .. } | Command::Receive { .. } => FailureCategory::Handshake,
            Command::Run { .. } | Command::Relay { .. } => FailureCategory::Runtime,
            _ => FailureCategory::Setup,
        }
    }

    /// The family a failure of this command belongs to.
    pub fn failure_category(&self) -> (category: FailureCategory)
        ensures
            category == self.spec_failure_category(),
    {
        match self {
            Command::Send { .. } => FailureCategory::Handshake,
            Command::Receive { .. } => FailureCategory::Handshake,
            Command::Run { .. } => FailureCategory::Runtime,
            Command::Relay { .. } => FailureCategory::Runtime,
            _ => FailureCategory::Setup,
        }
    }
}

/// What the transport reports of the command it was given.
#[derive(Clone, Debug)]
pub enum Outcome {
    /// The command was carried out.
    Completed,
    /// A `Resolve` was carried out, and this is the filter.
    Resolved(Vec<u8>),
    /// The command failed.
    Failed,
}

} // verus!
