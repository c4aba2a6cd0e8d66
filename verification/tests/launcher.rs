use plyoreacto::command::{Command, Handle, Signal};
use plyoreacto::config::PluginDescriptor;
use plyoreacto::endpoint::{Endpoint, LocalAddress};
use plyoreacto::launcher::{plugin_thread, LaunchStage, LaunchStep, Launcher};

fn plugin(id: u32, subscriptions: &[&str]) -> PluginDescriptor {
    let subscriptions = subscriptions.iter().map(|name| name.to_string()).collect();
    PluginDescriptor { id, subscriptions }
}

fn filter_of(name: &str) -> Vec<u8> {
    let mut bytes = vec![0xfb];
    bytes.extend_from_slice(name.as_bytes());
    bytes
}

/// Carries out every operation the launcher asks for, resolving each topic
/// with `filter_of`, and returns the operations in order.
fn run_to_the_end(launcher: &mut Launcher) -> Vec<Command> {
    let mut commands = Vec::new();
    while let Some(command) = launcher.pending() {
        commands.push(command);
        match command {
            Command::Resolve { .. } => {
                let name = launcher.pending_topic().unwrap().clone();
                launcher.resolved(filter_of(&name));
            }
            _ => launcher.complete(),
        }
    }
    commands
}

fn wiring_without_subscriptions(id: u32) -> Vec<Command> {
    vec![
        Command::Open { handle: Handle::Publish { plugin: id } },
        Command::Connect {
            handle: Handle::Publish { plugin: id },
            endpoint: Endpoint::Inproc(LocalAddress::Messages),
        },
        Command::Open { handle: Handle::Subscribe { plugin: id } },
        Command::Connect {
            handle: Handle::Subscribe { plugin: id },
            endpoint: Endpoint::Inproc(LocalAddress::Events),
        },
        Command::Open { handle: Handle::Request { plugin: id } },
        Command::Connect {
            handle: Handle::Request { plugin: id },
            endpoint: Endpoint::Inproc(LocalAddress::Sync { port: 5000 + id as u64 }),
        },
        Command::Spawn { plugin: id },
    ]
}

#[test]
fn nothing_to_launch() {
    let launcher = Launcher::new(vec![]);
    assert!(launcher.is_done());
    assert_eq!(launcher.pending(), None);
    assert_eq!(launcher.launched(), 0);
    assert_eq!(launcher.stage(), LaunchStage::Done);
}

#[test]
fn a_plugin_without_subscriptions() {
    let mut launcher = Launcher::new(vec![plugin(0, &[])]);
    assert_eq!(launcher.stage(), LaunchStage::Wiring { step: LaunchStep::OpenPublish });
    assert_eq!(run_to_the_end(&mut launcher), wiring_without_subscriptions(0));
    assert!(launcher.is_done());
    assert_eq!(launcher.launched(), 1);
    assert_eq!(launcher.subscriptions(0).unwrap().len(), 0);
    assert!(launcher.subscriptions(1).is_none());
}

#[test]
fn a_plugin_with_two_subscriptions() {
    let mut launcher = Launcher::new(vec![plugin(6, &["NewImageEvent", "ImageScoredEvent"])]);
    let subscribe = Handle::Subscribe { plugin: 6 };
    let mut expected = wiring_without_subscriptions(6);
    expected.splice(
        4..4,
        vec![
            Command::Resolve { plugin: 6, topic: 0 },
            Command::Install { handle: subscribe, topic: 0 },
            Command::Resolve { plugin: 6, topic: 1 },
            Command::Install { handle: subscribe, topic: 1 },
        ],
    );
    assert_eq!(run_to_the_end(&mut launcher), expected);
    let installed = launcher.subscriptions(0).unwrap();
    assert_eq!(installed.len(), 2);
    assert_eq!(installed.filter(0).as_bytes(), &filter_of("NewImageEvent")[..]);
    assert_eq!(installed.filter(1).as_bytes(), &filter_of("ImageScoredEvent")[..]);
}

#[test]
fn plugins_are_launched_in_the_order_of_their_descriptors() {
    let mut launcher = Launcher::new(vec![plugin(2, &[]), plugin(0, &[]), plugin(1, &[])]);
    let commands = run_to_the_end(&mut launcher);
    let mut expected = wiring_without_subscriptions(2);
    expected.extend(wiring_without_subscriptions(0));
    expected.extend(wiring_without_subscriptions(1));
    assert_eq!(commands, expected);
    assert_eq!(launcher.launched(), 3);
    assert_eq!(launcher.plugins().len(), 3);
}

#[test]
fn the_thread_is_started_last() {
    let mut launcher =
        Launcher::new(vec![plugin(0, &["a", "b", "c"]), plugin(1, &[]), plugin(2, &["d"])]);
    let commands = run_to_the_end(&mut launcher);
    for id in 0..3u32 {
        let spawn = commands.iter().position(|c| *c == Command::Spawn { plugin: id }).unwrap();
        for handle in [
            Handle::Publish { plugin: id },
            Handle::Subscribe { plugin: id },
            Handle::Request { plugin: id },
        ] {
            let open = commands.iter().position(|c| *c == Command::Open { handle }).unwrap();
            let connect = commands
                .iter()
                .position(|c| matches!(c, Command::Connect { handle: h, .. } if *h == handle))
                .unwrap();
            assert!(open < connect);
            assert!(connect < spawn);
        }
        let subscribe = Handle::Subscribe { plugin: id };
        let last_install = commands
            .iter()
            .rposition(|c| matches!(c, Command::Install { handle, .. } if *handle == subscribe));
        if let Some(at) = last_install {
            assert!(at < spawn);
        }
    }
    assert_eq!(commands.iter().filter(|c| matches!(c, Command::Spawn { .. })).count(), 3);
}

#[test]
fn the_name_to_resolve() {
    let mut launcher = Launcher::new(vec![plugin(1, &["NewImageEvent"])]);
    assert_eq!(launcher.pending_topic(), None);
    for _ in 0..4 {
        launcher.complete();
    }
    assert_eq!(launcher.pending(), Some(Command::Resolve { plugin: 1, topic: 0 }));
    assert_eq!(launcher.pending_topic(), Some(&"NewImageEvent".to_string()));
    launcher.resolved(vec![1, 2, 3]);
    assert_eq!(launcher.pending_topic(), None);
    assert_eq!(
        launcher.pending(),
        Some(Command::Install { handle: Handle::Subscribe { plugin: 1 }, topic: 0 })
    );
    assert_eq!(launcher.wiring().len(), 1);
    assert_eq!(launcher.wiring().filter(0).as_bytes(), &[1u8, 2, 3][..]);
}

#[test]
fn a_resolve_is_not_answered_by_a_plain_completion() {
    let mut launcher = Launcher::new(vec![plugin(1, &["NewImageEvent"])]);
    for _ in 0..4 {
        launcher.complete();
    }
    launcher.complete();
    assert_eq!(launcher.failure(), Some(Command::Resolve { plugin: 1, topic: 0 }));
    assert_eq!(launcher.pending(), None);
    assert!(!launcher.is_done());
}

#[test]
fn a_filter_answers_nothing_but_a_resolve() {
    let mut launcher = Launcher::new(vec![plugin(1, &["NewImageEvent"])]);
    launcher.resolved(vec![1]);
    assert_eq!(
        launcher.failure(),
        Some(Command::Open { handle: Handle::Publish { plugin: 1 } })
    );
    assert_eq!(launcher.wiring().len(), 0);
}

#[test]
fn a_failed_connection_stops_the_launcher() {
    let mut launcher = Launcher::new(vec![plugin(0, &[]), plugin(1, &[])]);
    for _ in 0..7 {
        launcher.complete();
    }
    launcher.complete();
    let failing = Command::Connect {
        handle: Handle::Publish { plugin: 1 },
        endpoint: Endpoint::Inproc(LocalAddress::Messages),
    };
    assert_eq!(launcher.pending(), Some(failing));
    launcher.fail();
    assert_eq!(launcher.failure(), Some(failing));
    assert_eq!(launcher.stage(), LaunchStage::Failed { command: failing });
    assert_eq!(launcher.launched(), 1);
    launcher.complete();
    launcher.resolved(vec![]);
    launcher.fail();
    assert_eq!(launcher.failure(), Some(failing));
    assert!(!launcher.is_done());
}

#[test]
fn what_the_thread_of_a_plugin_does() {
    assert_eq!(
        plugin_thread(2),
        vec![
            Command::Send { handle: Handle::Request { plugin: 2 }, signal: Signal::Ready },
            Command::Receive { handle: Handle::Request { plugin: 2 } },
            Command::Run { plugin: 2 },
        ]
    );
}
