//! The host's side of the sailor app: what a machine does so that a phone can see
//! the coding agents that run on it and answer what they ask.
//!
//! An agent's hook reports an event ([`adapters`], [`events`]); the daemon keeps
//! one inbox row per session and parks each request for permission until it is
//! answered ([`inbox`], [`pending`], [`server`]); the gateway serves the inbox,
//! diffs, files and development servers to a paired phone ([`gateway`], [`diff`],
//! [`servers`], [`preview`], [`replies`]); and [`commands`] puts the hooks into each
//! agent's settings and takes them out again ([`hooks`], [`hook_laws`]).
//! What all of this promises its users is stated in [`laws`].
//!
//! Everything here computes on plain values. Files, sockets, processes and the
//! clock's ticks are the program's, which asks this library what to do next.

pub mod text;
pub mod tree;
pub mod json;
pub mod toml_tree;
pub mod hooks;
pub mod hook_laws;
pub mod paths;
pub mod config;
pub mod commands;
pub mod ids;
pub mod context;
pub mod events;
pub mod herdr;
pub mod clock;
pub mod inbox;
pub mod pending;
pub mod ipc;
pub mod server;
pub mod adapters;
pub mod gateway;
pub mod diff;
pub mod servers;
pub mod preview;
pub mod push;
pub mod replies;
pub mod secret;
pub mod hostid;
pub mod discovery;
pub mod cli;
pub mod laws;
