//! Guarded reads: a request that reveals a guarded value is shown to the user,
//! and goes on only if they approve.
//!
//! The guard is judged twice: before the dialog, so that nobody is asked about
//! a request that is refused anyway, and after it, because the entry may have
//! been written while the user decided.

use vstd::prelude::*;

use crate::daemon::get;
use crate::daemon::get::{GuardCheckMode, GuardFinding};
use crate::daemon::guard::ProcessInfo;
use crate::daemon::handler;
use crate::text;
use crate::wire;
use crate::wire::{ErrorKind, Request, Response};

verus! {

/// How long a guarded read waits for the helper to start, in seconds.
pub const HELPER_STARTING_WAIT_SECS: u64 = 5;

/// How long the daemon waits for the user's answer, in seconds.
pub const APPROVER_REQUEST_TIMEOUT_SECS: u64 = 90;

/// The time that the dialog itself is told, in seconds.
pub const APPROVER_WIRE_TIMEOUT_SECS: u32 = 60;

/// What came of asking the user.
#[derive(Debug, Clone, PartialEq, Eq)]
pub enum ApprovalOutcome {
    Approved,
    HelperUnavailable,
    Denied,
    Cancelled,
    Timeout,
    PeerGone,
    BiometricFailed,
    /// The helper could not be talked to.
    Ipc(String),
}

/// What the helper answered.
#[derive(Debug, Clone, Copy, PartialEq, Eq, Structural)]
pub enum DialogAnswer {
    Approved,
    Denied,
    Cancelled,
    Timeout,
    PeerGone,
    BiometricFailed,
}

/// The short name of an outcome.
pub open spec fn outcome_label(outcome: ApprovalOutcome) -> Seq<char> {
    match outcome {
        ApprovalOutcome::Approved => "approved"@,
        ApprovalOutcome::HelperUnavailable => "approver helper unavailable"@,
        ApprovalOutcome::Denied => "approval denied by user"@,
        ApprovalOutcome::Cancelled => "approval cancelled"@,
        ApprovalOutcome::Timeout => "approval timed out"@,
        ApprovalOutcome::PeerGone => "requesting process exited before approval"@,
        ApprovalOutcome::BiometricFailed => "biometric authentication failed"@,
        ApprovalOutcome::Ipc(_) => "approver dialog failed"@,
    }
}

impl ApprovalOutcome {
    /// The short name of the outcome.
    pub fn label(&self) -> (r: &'static str)
        ensures
            r@ == outcome_label(*self),
    {
        match self {
            ApprovalOutcome::Approved => "approved",
            ApprovalOutcome::HelperUnavailable => "approver helper unavailable",
            ApprovalOutcome::Denied => "approval denied by user",
            ApprovalOutcome::Cancelled => "approval cancelled",
            ApprovalOutcome::Timeout => "approval timed out",
            ApprovalOutcome::PeerGone => "requesting process exited before approval",
            ApprovalOutcome::BiometricFailed => "biometric authentication failed",
            ApprovalOutcome::Ipc(_) => "approver dialog failed",
        }
    }
}

/// The outcome of a dialog: `helper` is `None` where no helper was ready, and
/// otherwise what asking it gave.
pub fn dialog_outcome(helper: Option<Result<DialogAnswer, String>>) -> (r: ApprovalOutcome)
    ensures
        match helper {
            None => r is HelperUnavailable,
            Some(Err(e)) => r == ApprovalOutcome::Ipc(e),
            Some(Ok(DialogAnswer::Approved)) => r is Approved,
            Some(Ok(DialogAnswer::Denied)) => r is Denied,
            Some(Ok(DialogAnswer::Cancelled)) => r is Cancelled,
            Some(Ok(DialogAnswer::Timeout)) => r is Timeout,
            Some(Ok(DialogAnswer::PeerGone)) => r is PeerGone,
            Some(Ok(DialogAnswer::BiometricFailed)) => r is BiometricFailed,
        },
        r is Approved <==> helper == Some(Ok::<DialogAnswer, String>(DialogAnswer::Approved)),
{
    match helper {
        None => ApprovalOutcome::HelperUnavailable,
        Some(Err(e)) => ApprovalOutcome::Ipc(e),
        Some(Ok(answer)) => match answer {
            DialogAnswer::Approved => ApprovalOutcome::Approved,
            DialogAnswer::Denied => ApprovalOutcome::Denied,
            DialogAnswer::Cancelled => ApprovalOutcome::Cancelled,
            DialogAnswer::Timeout => ApprovalOutcome::Timeout,
            DialogAnswer::PeerGone => ApprovalOutcome::PeerGone,
            DialogAnswer::BiometricFailed => ApprovalOutcome::BiometricFailed,
        },
    }
}

/// What a request is refused with where the user did not approve it.
pub open spec fn rejection(outcome: ApprovalOutcome) -> Seq<char> {
    match outcome {
        ApprovalOutcome::HelperUnavailable => {
            "approver helper unavailable (helper is not running)"@
        },
        ApprovalOutcome::Ipc(e) => "approver dialog failed: "@ + e@,
        _ => outcome_label(outcome),
    }
}

/// Go on with an approved request; refuse any other with what happened.
pub fn approval_result(outcome: &ApprovalOutcome) -> (r: Result<(), Response>)
    ensures
        r is Ok <==> *outcome is Approved,
        r matches Err(resp) ==> wire::is_error(resp, ErrorKind::AuthFailed, rejection(*outcome)),
{
    match outcome {
        ApprovalOutcome::Approved => Ok(()),
        ApprovalOutcome::HelperUnavailable => Err(
            Response::error(
                ErrorKind::AuthFailed,
                "approver helper unavailable (helper is not running)",
            ),
        ),
        ApprovalOutcome::Ipc(e) => Err(
            Response::error(
                ErrorKind::AuthFailed,
                "approver dialog failed: ".to_owned().concat(e.as_str()).as_str(),
            ),
        ),
        other => Err(Response::error(ErrorKind::AuthFailed, other.label())),
    }
}

/// The state of the helper that shows the dialog.
#[derive(Debug, Clone, Copy, PartialEq, Eq, Structural)]
pub enum ApproverState {
    Starting,
    Ready,
    Down,
}

/// What a guarded read does about the helper.
#[derive(Debug, Clone, Copy, PartialEq, Eq, Structural)]
pub enum WaitStep {
    /// Ask it.
    Ask,
    /// Wait for it to change state.
    Wait,
    /// Do without it, which refuses the request.
    GiveUp,
}

/// What a guarded read does about a helper in `state`, where `expired` says
/// that it has waited long enough. A helper that is ready is asked even then.
pub fn wait_ready(state: ApproverState, expired: bool) -> (r: WaitStep)
    ensures
        r == match state {
            ApproverState::Ready => WaitStep::Ask,
            ApproverState::Down => WaitStep::GiveUp,
            ApproverState::Starting => if expired {
                WaitStep::GiveUp
            } else {
                WaitStep::Wait
            },
        },
{
    match state {
        ApproverState::Ready => WaitStep::Ask,
        ApproverState::Down => WaitStep::GiveUp,
        ApproverState::Starting => if expired {
            WaitStep::GiveUp
        } else {
            WaitStep::Wait
        },
    }
}

/// How a request is run.
#[derive(Debug, Clone, PartialEq, Eq)]
pub enum Dispatch {
    /// Answer at once, without the store.
    Reply(Response),
    /// Hand over to the graceful restart.
    Restart,
    /// Judge the guard first: the request reveals the value of `key`.
    GuardedGet { key: String },
    /// Run the handler; `persist` says to write the definitions to disk where
    /// it succeeds.
    Handle { persist: bool },
}

/// The request may change the registry of definitions.
pub open spec fn changes_definitions(req: Request) -> bool {
    match req {
        Request::KvDefine { .. } => true,
        Request::KvDel { with_define, .. } => with_define,
        _ => false,
    }
}

/// Decide how a request is run. A ping needs no store, so it is answered while
/// the store is busy; only a get that reveals its value can need approval.
pub fn dispatch_request(req: &Request) -> (r: Dispatch)
    ensures
        match *req {
            Request::Ping => r matches Dispatch::Reply(resp) && wire::is_ok(
                resp,
                wire::OkPayload::Pong,
            ),
            Request::RestartGraceful => r is Restart,
            Request::KvGet { key, dry_run } => if dry_run {
                r == (Dispatch::Handle { persist: false })
            } else {
                r matches Dispatch::GuardedGet { key: k } && k@ == key@
            },
            _ => r == (Dispatch::Handle { persist: changes_definitions(*req) }),
        },
{
    match req {
        Request::Ping => Dispatch::Reply(Response::pong()),
        Request::RestartGraceful => Dispatch::Restart,
        Request::KvGet { key, dry_run } => if *dry_run {
            Dispatch::Handle { persist: false }
        } else {
            Dispatch::GuardedGet { key: key.clone() }
        },
        Request::KvDefine { .. } => Dispatch::Handle { persist: true },
        Request::KvDel { key, with_define } => Dispatch::Handle { persist: *with_define },
        _ => Dispatch::Handle { persist: false },
    }
}

/// Whether the definitions are to be written to disk after the handler replied.
pub fn persist_needed(req: &Request, resp: &Response) -> (r: bool)
    ensures
        r == (changes_definitions(*req) && *resp is Success),
{
    let changes = match req {
        Request::KvDefine { .. } => true,
        Request::KvDel { key, with_define } => *with_define,
        _ => false,
    };
    changes && resp.is_ok()
}

/// The reply once the definitions were to be written: a failed write is
/// reported, so that memory and disk do not part in silence.
pub fn persisted_reply(reply: Response, persisted: Result<(), String>) -> (r: Response)
    ensures
        match persisted {
            Ok(()) => r == reply,
            Err(e) => wire::is_error(
                r,
                ErrorKind::Internal,
                "definition applied but could not be persisted: "@ + e@,
            ),
        },
{
    match persisted {
        Ok(()) => reply,
        Err(e) => Response::error(
            ErrorKind::Internal,
            "definition applied but could not be persisted: ".to_owned().concat(
                e.as_str(),
            ).as_str(),
        ),
    }
}

/// The reply to a line that is no request.
pub fn malformed_reply(e: &str) -> (r: Response)
    ensures
        wire::is_error(r, ErrorKind::BadRequest, "malformed request: "@ + e@),
{
    Response::error(
        ErrorKind::BadRequest,
        "malformed request: ".to_owned().concat(e).as_str(),
    )
}

/// The reply where an earlier request broke off while it held the store.
pub fn poisoned_reply() -> (r: Response)
    ensures
        wire::is_error(r, ErrorKind::Internal, "store lock poisoned"@),
{
    Response::error(ErrorKind::Internal, "store lock poisoned")
}

/// The reply where a handler broke off.
pub fn panicked_reply(e: &str) -> (r: Response)
    ensures
        wire::is_error(r, ErrorKind::Internal, "handler panicked: "@ + e@),
{
    Response::error(
        ErrorKind::Internal,
        "handler panicked: ".to_owned().concat(e).as_str(),
    )
}

/// What judging a revealing get leads to.
#[derive(Debug, Clone, PartialEq, Eq)]
pub enum FirstPass {
    /// The entry has no guard: run the handler on the request.
    RunHandler,
    /// The request is refused.
    Refuse(Response),
    /// The guard lets the requester through: ask the user.
    AskUser,
}

/// Judge a get that reveals its value. An unguarded entry is left to the
/// handler; a guarded one passes the same gates as there and is then put to the
/// user.
pub fn first_pass(
    key: &str,
    allowed: Option<&[String]>,
    requester: Option<&[ProcessInfo]>,
    finding: &GuardFinding,
) -> (r: FirstPass)
    ensures
        if !finding.guarded {
            r is RunHandler
        } else if get::get_admitted(
            key@,
            get::names_of(allowed),
            requester,
            GuardCheckMode::Evaluate,
            *finding,
        ) {
            r is AskUser
        } else {
            r matches FirstPass::Refuse(resp) && get::is_get_refusal(
                resp,
                key@,
                get::names_of(allowed),
                requester,
                *finding,
            )
        },
{
    if !finding.guarded {
        return FirstPass::RunHandler;
    }
    match get::check_read_gates(key, allowed, requester) {
        Err(resp) => {
            return FirstPass::Refuse(resp);
        },
        Ok(()) => {},
    }
    match get::check_guard(finding) {
        Err(resp) => FirstPass::Refuse(resp),
        Ok(()) => FirstPass::AskUser,
    }
}

/// `resp` refuses an approved get because of the guard that the entry has now.
pub open spec fn is_late_refusal(resp: Response, finding: GuardFinding) -> bool {
    wire::is_error(
        resp,
        ErrorKind::AuthFailed,
        if !finding.chain_known {
            "access denied by entry guard (kind: missing-context) after approval"@
        } else {
            "access denied by entry guard (kind: "@ + finding.denied->0@
                + "); record changed during approval"@
        },
    )
}

/// Judge an approved get once more, against the guard that the entry has now:
/// the handler runs with the guard taken as settled, or the request is refused.
/// An entry that lost its guard meanwhile is read as an unguarded one.
pub fn finalize_after_approval(finding: &GuardFinding) -> (r: Result<GuardCheckMode, Response>)
    ensures
        r is Ok <==> !get::guard_refuses(GuardCheckMode::Evaluate, *finding),
        r matches Ok(mode) ==> mode == GuardCheckMode::AlreadyApproved,
        r matches Err(resp) ==> is_late_refusal(resp, *finding),
{
    if finding.guarded {
        if !finding.chain_known {
            return Err(
                Response::error(
                    ErrorKind::AuthFailed,
                    "access denied by entry guard (kind: missing-context) after approval",
                ),
            );
        }
        if let Some(kind) = &finding.denied {
            return Err(
                Response::error(
                    ErrorKind::AuthFailed,
                    "access denied by entry guard (kind: ".to_owned().concat(
                        kind.as_str(),
                    ).concat("); record changed during approval").as_str(),
                ),
            );
        }
    }
    Ok(GuardCheckMode::AlreadyApproved)
}

/// The identifier of a dialog request: the daemon's process id and a number
/// that no other request of it has.
pub fn approver_request_id(pid: u32, n: u64) -> (r: String)
    ensures
        r@ == text::decimal(pid as nat) + "-"@ + text::decimal(n as nat),
{
    text::number_text(pid as u64).concat("-").concat(text::number_text(n).as_str())
}

/// Two requests of one daemon never share an identifier.
pub proof fn request_ids_are_distinct(pid: u32, n: u64, m: u64)
    requires
        text::decimal(pid as nat) + "-"@ + text::decimal(n as nat) == text::decimal(pid as nat)
            + "-"@ + text::decimal(m as nat),
    ensures
        n == m,
{
    let lead = text::decimal(pid as nat) + "-"@;
    let a = text::decimal(n as nat);
    let b = text::decimal(m as nat);
    assert(a =~= (lead + a).skip(lead.len() as int));
    assert(b =~= (lead + b).skip(lead.len() as int));
    text::decimal_is_injective(n as nat, m as nat);
}

/// Where the helper that shows the dialog is installed.
pub const APPROVER_HELPER_PATH: &'static str =
    "/Applications/CacheWarden.app/Contents/Helpers/CacheWardenApprover.app/Contents/MacOS/cache-warden-approver";

/// The helper to start: an explicitly named one that is a file, else the
/// installed one where that is a file.
pub fn approver_helper_path(
    explicit: Option<String>,
    explicit_is_file: bool,
    installed_is_file: bool,
) -> (r: Option<String>)
    ensures
        r.deep_view() == (if explicit is Some && explicit_is_file {
            Some(explicit->0@)
        } else if installed_is_file {
            Some(APPROVER_HELPER_PATH@)
        } else {
            None
        }),
{
    if let Some(p) = explicit {
        if explicit_is_file {
            return Some(p);
        }
    }
    if installed_is_file {
        Some(APPROVER_HELPER_PATH.to_owned())
    } else {
        None
    }
}

} // verus!
