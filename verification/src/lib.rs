//! The decision core of a publish-subscribe event engine.
//!
//! The engine binds a fan-in ingress endpoint and a fan-out egress endpoint,
//! wires every in-process plugin to both, holds all participants at a
//! rendezvous barrier, and only then starts relaying. Everything the engine
//! decides is computed here, as commands for a transport to carry out; the
//! transport reports each outcome back.

pub mod barrier;
pub mod command;
pub mod config;
pub mod endpoint;
pub mod engine;
pub mod launcher;
pub mod topic;
pub mod transport;
