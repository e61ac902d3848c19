//! The decision logic of the cache-warden command line and daemon: key names,
//! output modes, help pages, the wire protocol's replies, definition files, and
//! what the daemon does with each request. Nothing here performs I/O; callers
//! hand in what they observed and carry out what they are told.

pub mod text;
pub mod chain;
pub mod args;
pub mod namespace;
pub mod wire;
pub mod path;
pub mod daemon;
pub mod config;
pub mod defs;
pub mod help;
pub mod mode;
pub mod fda;
pub mod otp_type;
pub mod cli;
pub mod laws;
