//! The daemon's decisions: what it answers to each request and what it does on
//! the way there. The store, the sockets and the helper processes stay with the
//! caller, which hands in what it observed and carries out what it is told.

pub mod approval;
pub mod claim;
pub mod dispatch;
pub mod entries;
pub mod get;
pub mod guard;
pub mod handler;
pub mod otp_adapter;
pub mod owner_eval;
pub mod requests;
pub mod server;
pub mod set;
pub mod startup;
pub mod store;
pub mod upstream_path;
pub mod vault_state;
