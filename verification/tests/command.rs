use plyoreacto::command::{Command, FailureCategory, Handle, Signal, SocketKind};
use plyoreacto::endpoint::{Endpoint, LocalAddress};

#[test]
fn every_handle_has_its_pattern() {
    assert_eq!(Handle::Egress.kind(), SocketKind::Publish);
    assert_eq!(Handle::Ingress.kind(), SocketKind::Subscribe);
    assert_eq!(Handle::Publish { plugin: 1 }.kind(), SocketKind::Publish);
    assert_eq!(Handle::Subscribe { plugin: 1 }.kind(), SocketKind::Subscribe);
    assert_eq!(Handle::Request { plugin: 1 }.kind(), SocketKind::Request);
    assert_eq!(Handle::Reply { slot: 1 }.kind(), SocketKind::Reply);
}

#[test]
fn rendezvous_handles() {
    assert!(Handle::Request { plugin: 0 }.is_rendezvous());
    assert!(Handle::Reply { slot: 3 }.is_rendezvous());
    assert!(!Handle::Egress.is_rendezvous());
    assert!(!Handle::Ingress.is_rendezvous());
    assert!(!Handle::Publish { plugin: 0 }.is_rendezvous());
    assert!(!Handle::Subscribe { plugin: 0 }.is_rendezvous());
}

#[test]
fn signal_texts() {
    assert_eq!(Signal::Ready.text(), "ready");
    assert_eq!(Signal::Acknowledge.text(), "ok");
}

#[test]
fn setup_failures() {
    let handle = Handle::Subscribe { plugin: 1 };
    let endpoint = Endpoint::Inproc(LocalAddress::Events);
    assert_eq!(Command::Open { handle }.failure_category(), FailureCategory::Setup);
    assert_eq!(Command::Bind { handle, endpoint }.failure_category(), FailureCategory::Setup);
    assert_eq!(Command::Connect { handle, endpoint }.failure_category(), FailureCategory::Setup);
    assert_eq!(Command::AcceptAll { handle }.failure_category(), FailureCategory::Setup);
    assert_eq!(Command::Resolve { plugin: 1, topic: 0 }.failure_category(), FailureCategory::Setup);
    assert_eq!(Command::Install { handle, topic: 0 }.failure_category(), FailureCategory::Setup);
    assert_eq!(Command::Spawn { plugin: 1 }.failure_category(), FailureCategory::Setup);
}

#[test]
fn handshake_failures() {
    let handle = Handle::Reply { slot: 2 };
    assert_eq!(
        Command::Send { handle, signal: Signal::Acknowledge }.failure_category(),
        FailureCategory::Handshake
    );
    assert_eq!(Command::Receive { handle }.failure_category(), FailureCategory::Handshake);
}

#[test]
fn runtime_failures() {
    assert_eq!(Command::Run { plugin: 0 }.failure_category(), FailureCategory::Runtime);
    assert_eq!(
        Command::Relay { from: Handle::Ingress, to: Handle::Egress }.failure_category(),
        FailureCategory::Runtime
    );
}
