//! What the operations promise, said of what goes into them and what comes out
//! alone.
//!
//! Each law takes the arguments of calls and what they gave, and states what the
//! one has to do with the other.

pub mod batches;
pub mod claims;
pub mod codes;
pub mod commands;
pub mod files;
pub mod guards;
pub mod helps;
pub mod modes;
pub mod names;
pub mod approvals;
pub mod reads;
pub mod replies;
pub mod reports;
pub mod runs;
pub mod shown;
pub mod starts;
pub mod vaults;
pub mod writes;
pub mod words;
