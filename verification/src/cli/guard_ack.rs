//! Setting a guarded value: a daemon that does not say which constraints it
//! applied has stored the value without them, so it is taken back.

use vstd::prelude::*;

use crate::cli::connection::Connection;
use crate::cli::render;
use crate::text;
use crate::wire::{OkPayload, Request, Response};

verus! {

/// Whether `req` declares constraints, so that its acknowledgement must name
/// those that were applied.
pub fn needs_guard_ack(req: &Request) -> (r: bool)
    ensures
        r == (*req matches Request::KvSet { guard_constraints, .. } && guard_constraints@.len() > 0),
{
    match req {
        Request::KvSet { guard_constraints, .. } => guard_constraints.len() > 0,
        _ => false,
    }
}

/// What a reply to a guarded `kv.set` calls for.
#[derive(Debug, Clone, PartialEq, Eq)]
pub enum AckStep {
    /// The constraints are in force: print this line.
    Applied(String),
    Failed(String),
    /// The payload does not belong there.
    Unexpected(OkPayload),
    /// The value was stored unguarded: delete it at this key, leaving its
    /// definition.
    TakeBack(String),
}

/// What an [`AckStep`] holds.
pub enum AckView {
    Applied(Seq<char>),
    Failed(Seq<char>),
    Unexpected(OkPayload),
    TakeBack(Seq<char>),
}

impl View for AckStep {
    type V = AckView;

    open spec fn view(&self) -> AckView {
        match self {
            AckStep::Applied(s) => AckView::Applied(s@),
            AckStep::Failed(s) => AckView::Failed(s@),
            AckStep::Unexpected(p) => AckView::Unexpected(*p),
            AckStep::TakeBack(k) => AckView::TakeBack(k@),
        }
    }
}

/// What the reply `resp` to `req` calls for.
pub open spec fn ack_view(req: Request, resp: Response) -> AckView {
    match resp {
        Response::Failure(e) => AckView::Failed(render::failure_text(e)),
        Response::Success(body) => match body.payload {
            OkPayload::Stored { guard_applied, .. } => if guard_applied@.len() > 0 {
                AckView::Applied(
                    "ok (guard: "@ + text::joined(guard_applied.deep_view(), ", "@) + ")"@,
                )
            } else {
                match req {
                    Request::KvSet { key, .. } => AckView::TakeBack(key@),
                    _ => AckView::Failed(
                        "internal error: expect_guard_ack invoked with a non-KvSet request"@,
                    ),
                }
            },
            other => AckView::Unexpected(other),
        },
    }
}

/// What the reply `resp` to `req` calls for.
pub fn ack_step(req: &Request, resp: Response) -> (r: AckStep)
    ensures
        r@ == ack_view(*req, resp),
{
    match resp {
        Response::Failure(e) => AckStep::Failed(render::describe_failure(&e)),
        Response::Success(body) => match body.payload {
            OkPayload::Stored { guard_applied, .. } => if guard_applied.len() > 0 {
                let slice = guard_applied.as_slice();
                assert(slice.deep_view() =~= guard_applied.deep_view());
                AckStep::Applied(
                    "ok (guard: ".to_owned().concat(text::join(slice, ", ").as_str()).concat(")"),
                )
            } else {
                match req {
                    Request::KvSet { key, .. } => AckStep::TakeBack(key.clone()),
                    _ => AckStep::Failed(
                        "internal error: expect_guard_ack invoked with a non-KvSet request".to_owned(),
                    ),
                }
            },
            other => AckStep::Unexpected(other),
        },
    }
}

/// What became of the unguarded value at `key`.
pub open spec fn cleanup_text(key: Seq<char>, reply: Result<Response, String>) -> Seq<char> {
    let failed = match reply {
        Ok(Response::Success(_)) => None,
        Ok(Response::Failure(e)) => Some(render::failure_text(e)),
        Err(e) => Some(e@),
    };
    match failed {
        None => "the unguarded value at "@ + text::debug_text(key) + " was auto-deleted"@,
        Some(why) => "the unguarded value at "@ + text::debug_text(key)
            + " could NOT be auto-deleted ("@ + why + "); run `cache-warden kv del "@ + key
            + "` immediately"@,
    }
}

/// The complaint about a daemon that stored a value without its guard, where
/// `reply` is what came of deleting it.
pub open spec fn unguarded_text(key: Seq<char>, reply: Result<Response, String>) -> Seq<char> {
    "daemon accepted the set but did not report any applied guard constraints; you likely have an old cache-warden daemon that does not enforce per-entry access guards, so the value was stored WITHOUT the requested guard. "@
        + cleanup_text(key, reply)
        + ". Restart the daemon with a matching version (`cache-warden daemon restart --graceful` or a service restart) before relying on --require-* flags."@
}

/// The complaint about a daemon that stored a value without its guard, where
/// `reply` is what came of deleting it.
pub fn taken_back(key: &str, reply: Result<Response, String>) -> (r: String)
    ensures
        r@ == unguarded_text(key@, reply),
{
    let failed = match reply {
        Ok(Response::Success(_)) => None,
        Ok(Response::Failure(e)) => Some(render::describe_failure(&e)),
        Err(e) => Some(e),
    };
    let start = "the unguarded value at ".to_owned().concat(text::quoted(key).as_str());
    let cleanup = match failed {
        None => start.concat(" was auto-deleted"),
        Some(why) => start.concat(" could NOT be auto-deleted (").concat(why.as_str()).concat(
            "); run `cache-warden kv del ",
        ).concat(key).concat("` immediately"),
    };
    "daemon accepted the set but did not report any applied guard constraints; you likely have an old cache-warden daemon that does not enforce per-entry access guards, so the value was stored WITHOUT the requested guard. ".to_owned().concat(
        cleanup.as_str(),
    ).concat(
        ". Restart the daemon with a matching version (`cache-warden daemon restart --graceful` or a service restart) before relying on --require-* flags.",
    )
}

/// Why a guarded `kv.set` failed.
#[derive(Debug, Clone, PartialEq, Eq)]
pub enum AckError {
    Message(String),
    /// The payload does not belong there.
    Unexpected(OkPayload),
}

/// `r` deletes the value at `key` and leaves its definition.
pub open spec fn is_value_deletion(r: Request, key: Seq<char>) -> bool {
    r matches Request::KvDel { key: k, with_define } && k@ == key && !with_define
}

/// `r` reports what the reply to a guarded `kv.set` calls for, where that is not
/// to take the value back.
pub open spec fn reports_ack(r: Result<String, AckError>, ack: AckView) -> bool {
    match ack {
        AckView::Applied(line) => r matches Ok(l) && l@ == line,
        AckView::Failed(message) => r matches Err(AckError::Message(m)) && m@ == message,
        AckView::Unexpected(payload) => r == Err::<String, AckError>(
            AckError::Unexpected(payload),
        ),
        AckView::TakeBack(_) => false,
    }
}

/// Send a guarded `kv.set` and see to it that the value is guarded: the line to
/// print, or why it failed. A value that was stored unguarded is deleted over
/// the same connection before that is reported; nothing else is sent.
pub fn expect_guard_ack_with_sender<C: Connection>(req: &Request, sender: &mut C) -> (r: Result<
    String,
    AckError,
>)
    ensures
        exists|m: &mut C, first: Result<Response, String>|
            *m == *old(sender) && #[trigger] call_ensures(C::send, (m, req), first) && match first {
                Err(e) => r == Err::<String, AckError>(AckError::Message(e)) && *final(sender)
                    == *final(m),
                Ok(resp) => match ack_view(*req, resp) {
                    AckView::TakeBack(key) => exists|
                        n: &mut C,
                        deletion: &Request,
                        second: Result<Response, String>,
                    |
                        *n == *final(m) && *final(n) == *final(sender) && #[trigger] call_ensures(
                            C::send,
                            (n, deletion),
                            second,
                        ) && is_value_deletion(*deletion, key) && (r matches Err(
                            AckError::Message(message),
                        ) && message@ == unguarded_text(key, second)),
                    ack => reports_ack(r, ack) && *final(sender) == *final(m),
                },
            },
{
    let first = sender.send(req);
    let resp = match first {
        Err(e) => {
            return Err(AckError::Message(e));
        },
        Ok(resp) => resp,
    };
    match ack_step(req, resp) {
        AckStep::Applied(line) => Ok(line),
        AckStep::Failed(message) => Err(AckError::Message(message)),
        AckStep::Unexpected(payload) => Err(AckError::Unexpected(payload)),
        AckStep::TakeBack(key) => {
            let deletion = Request::KvDel { key: key.clone(), with_define: false };
            let second = sender.send(&deletion);
            Err(AckError::Message(taken_back(key.as_str(), second)))
        },
    }
}

/// A value is never left unguarded in silence: a guarded `kv.set` is reported
/// as done only where the daemon named constraints that it applied.
pub proof fn success_means_guarded(req: Request, resp: Response)
    requires
        ack_view(req, resp) is Applied,
    ensures
        resp matches Response::Success(body) && (body.payload matches OkPayload::Stored {
            guard_applied,
            ..
        } && guard_applied@.len() > 0),
{
}

} // verus!
