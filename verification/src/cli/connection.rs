//! How a command talks to the daemon.

use vstd::prelude::*;

use crate::wire::{Request, Response};

verus! {

/// A connection to the daemon. Nothing is promised of the replies.
pub trait Connection {
    /// Send a request: the reply, or why there is none.
    fn send(&mut self, req: &Request) -> Result<Response, String>;
}

} // verus!
