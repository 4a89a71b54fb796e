//! What the library promises, in terms of what goes in and what comes out: each
//! law is proved of the specifications that the functions' own contracts use.

pub mod text;
pub mod install;
pub mod plugins;
pub mod commands;
pub mod adapters;
pub mod inbox;
pub mod daemon;
pub mod diff;
pub mod replies;
pub mod servers;
pub mod network;
pub mod host;
pub mod sessions;
