//! The commands of the program, each as a function from what was read to what is
//! to be written and printed.

pub mod approve;
pub mod context;
pub mod cwd_list;
pub mod easy_pair;
pub mod event;
pub mod inbox;
pub mod install;
pub mod mux_list;
pub mod pair;
pub mod push;
pub mod serve;
pub mod service;
pub mod status;
pub mod uninstall;
pub mod unpair;
pub mod usage;
pub mod version;
