//! The broker's two endpoints and the relay between them.

use vstd::prelude::*;
use crate::command::{Command, Handle};
use crate::endpoint::{Endpoint, LocalAddress, EGRESS_PORT, INGRESS_PORT};

verus! {

/// What opens the fan-out endpoint: one publishing socket, reachable on the
/// network and inside the process.
pub open spec fn egress_script() -> Seq<Command> {
    seq![
        Command::Open { handle: Handle::Egress },
        Command::Bind { handle: Handle::Egress, endpoint: Endpoint::Tcp { port: 5560 } },
        Command::Bind { handle: Handle::Egress, endpoint: Endpoint::Inproc(LocalAddress::Events) },
    ]
}

/// What opens the fan-in endpoint: one subscribing socket, reachable on the
/// network and inside the process, that lets every message through.
pub open spec fn ingress_script() -> Seq<Command> {
    seq![
        Command::Open { handle: Handle::Ingress },
        Command::Bind { handle: Handle::Ingress, endpoint: Endpoint::Tcp { port: 5559 } },
        Command::Bind {
            handle: Handle::Ingress,
            endpoint: Endpoint::Inproc(LocalAddress::Messages),
        },
        Command::AcceptAll { handle: Handle::Ingress },
    ]
}

/// What opens the two endpoints: the fan-out endpoint first.
pub open spec fn endpoint_script() -> Seq<Command> {
    egress_script() + ingress_script()
}

/// The relay: everything that arrives at the fan-in endpoint leaves at the
/// fan-out endpoint.
pub open spec fn relay_command() -> Command {
    Command::Relay { from: Handle::Ingress, to: Handle::Egress }
}

/// The commands that open the fan-out endpoint, in order.
pub fn open_egress() -> (commands: Vec<Command>)
    ensures
        commands@ == egress_script(),
{
    let mut commands: Vec<Command> = Vec::new();
    commands.push(Command::Open { handle: Handle::Egress });
    commands.push(
        Command::Bind { handle: Handle::Egress, endpoint: Endpoint::Tcp { port: EGRESS_PORT } },
    );
    commands.push(
        Command::Bind { handle: Handle::Egress, endpoint: Endpoint::Inproc(LocalAddress::Events) },
    );
    assert(commands@ =~= egress_script());
    commands
}

/// The commands that open the fan-in endpoint, in order.
pub fn open_ingress() -> (commands: Vec<Command>)
    ensures
        commands@ == ingress_script(),
{
    let mut commands: Vec<Command> = Vec::new();
    commands.push(Command::Open { handle: Handle::Ingress });
    commands.push(
        Command::Bind { handle: Handle::Ingress, endpoint: Endpoint::Tcp { port: INGRESS_PORT } },
    );
    commands.push(
        Command::Bind {
            handle: Handle::Ingress,
            endpoint: Endpoint::Inproc(LocalAddress::Messages),
        },
    );
    commands.push(Command::AcceptAll { handle: Handle::Ingress });
    assert(commands@ =~= ingress_script());
    commands
}

/// The `at`-th command of those that open the two endpoints, if there are
/// that many.
pub fn endpoint_command(at: usize) -> (command: Option<Command>)
    ensures
        command == if at < endpoint_script().len() {
            Some(endpoint_script()[at as int])
        } else {
            None
        },
{
    let egress = open_egress();
    let ingress = open_ingress();
    if at < egress.len() {
        Some(egress[at])
    } else if at - egress.len() < ingress.len() {
        Some(ingress[at - egress.len()])
    } else {
        None
    }
}

/// The command that starts the relay.
pub fn relay() -> (command: Command)
    ensures
        command == relay_command(),
{
    Command::Relay { from: Handle::Ingress, to: Handle::Egress }
}

} // verus!
