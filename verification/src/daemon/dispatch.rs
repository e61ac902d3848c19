//! How a request is run: at once, through the handler, or, where it reveals a
//! guarded value, in two passes with the user's approval between them.

use vstd::prelude::*;

use crate::daemon::approval;
use crate::daemon::approval::{ApprovalOutcome, Dispatch, FirstPass};
use crate::daemon::get;
use crate::daemon::get::{GuardCheckMode, GuardFinding};
use crate::daemon::handler;
use crate::daemon::requests;
use crate::daemon::requests::HandlerCtx;
use crate::daemon::store;
use crate::daemon::store::SecretStore;
use crate::wire;
use crate::wire::{ErrorKind, OkPayload, Request, Response};

verus! {

/// The context with the guard taken in another way.
pub open spec fn in_mode<'a>(ctx: HandlerCtx<'a>, mode: GuardCheckMode) -> HandlerCtx<'a> {
    HandlerCtx { guard_check_mode: mode, ..ctx }
}

fn with_mode<'a>(ctx: &HandlerCtx<'a>, mode: GuardCheckMode) -> (r: HandlerCtx<'a>)
    ensures
        r == in_mode(*ctx, mode),
{
    HandlerCtx {
        pid: ctx.pid,
        version: ctx.version,
        socket: ctx.socket,
        full_disk_access: ctx.full_disk_access,
        requester: ctx.requester,
        kv_process_policies: ctx.kv_process_policies,
        guard_chain: ctx.guard_chain,
        guard_audit_token: ctx.guard_audit_token,
        kv_policy: ctx.kv_policy,
        guard_check_mode: mode,
    }
}

/// The definitions were to be written after `handled`, and `r` says what came
/// of it.
pub open spec fn reports_persistence(
    r: Response,
    handled: Response,
    persisted: Result<(), String>,
) -> bool {
    match persisted {
        Ok(()) => r == handled,
        Err(e) => wire::is_error(
            r,
            ErrorKind::Internal,
            "definition applied but could not be persisted: "@ + e@,
        ),
    }
}

/// What the program around the daemon does for a request. Nothing is promised of
/// it.
pub trait Host<S> {
    /// Hand over to a new process, or say why that cannot be: the reply.
    fn restart(&mut self) -> Response;

    /// Write the definitions that the store holds to disk.
    fn persist(&mut self, store: &S) -> Result<(), String>;
}

/// Run a request. The host answers a graceful restart, which the store has no
/// part in; it writes the definitions to disk after a request that changed them,
/// and is asked for nothing otherwise.
pub fn run_request<S: SecretStore, H: Host<S>>(
    store: &mut S,
    ctx: &HandlerCtx,
    req: Request,
    host: &mut H,
) -> (r: Response)
    ensures
        if req is RestartGraceful {
            *final(store) == *old(store) && exists|h: &mut H|
                *h == *old(host) && *final(h) == *final(host) && #[trigger] call_ensures(
                    H::restart,
                    (h,),
                    r,
                )
        } else if req is Ping {
            wire::is_ok(r, OkPayload::Pong) && *final(store) == *old(store) && *final(host) == *old(
                host,
            )
        } else {
            exists|m: &mut S, handled: Response|
                *m == *old(store) && *final(m) == *final(store) && #[trigger] call_ensures(
                    requests::handle_request::<S>,
                    (m, ctx, req),
                    handled,
                ) && if approval::changes_definitions(req) && handled is Success {
                    exists|h: &mut H, s: &S, persisted: Result<(), String>|
                        *h == *old(host) && *final(h) == *final(host) && *s == *final(store)
                            && #[trigger] call_ensures(H::persist, (h, s), persisted)
                            && reports_persistence(r, handled, persisted)
                } else {
                    r == handled && *final(host) == *old(host)
                }
        },
{
    let changes = match approval::dispatch_request(&req) {
        Dispatch::Reply(resp) => {
            return resp;
        },
        Dispatch::Restart => {
            return host.restart();
        },
        Dispatch::GuardedGet { .. } => false,
        Dispatch::Handle { persist } => persist,
    };
    let handled = requests::handle_request(store, ctx, req);
    if changes && handled.is_ok() {
        let persisted = host.persist(&*store);
        approval::persisted_reply(handled, persisted)
    } else {
        handled
    }
}

/// What came of the first pass over a get that reveals its value.
#[derive(Debug, Clone, PartialEq, Eq)]
pub enum GuardedGetFirstPass {
    /// This is the answer.
    Direct(Response),
    /// The user is to be asked, and shown the kinds of the constraints that the
    /// requester meets.
    NeedsApproval { passed: Vec<String> },
}

/// The user is to be asked about a get of `key`, given what the store finds of
/// its guard: it is guarded, and nothing keeps the request out.
pub open spec fn asks_user(key: Seq<char>, ctx: HandlerCtx, finding: GuardFinding) -> bool {
    finding.guarded && get::get_admitted(
        key,
        requests::policy_names(ctx.kv_process_policies@, key),
        ctx.requester,
        GuardCheckMode::Evaluate,
        finding,
    )
}

/// The first pass over a get that reveals its value. An unguarded entry is read
/// here; a guarded one is refused here, or put to the user with nothing read.
pub fn guarded_get_first_pass<S: SecretStore>(store: &mut S, ctx: &HandlerCtx, key: &str) -> (r:
    GuardedGetFirstPass)
    ensures
        exists|finding: GuardFinding| #[trigger]
            store::judges(
                *old(store),
                key@,
                ctx.guard_chain,
                ctx.guard_audit_token,
                finding,
            ) && if !finding.guarded {
                r matches GuardedGetFirstPass::Direct(resp) && exists|
                    m: &mut S,
                    c: &HandlerCtx,
                    k: String,
                |
                    *m == *old(store) && *final(m) == *final(store) && *c == in_mode(
                        *ctx,
                        GuardCheckMode::Evaluate,
                    ) && k@ == key@ && #[trigger] call_ensures(
                        requests::handle_get::<S>,
                        (m, c, k, false),
                        resp,
                    )
            } else if asks_user(key@, *ctx, finding) {
                r == (GuardedGetFirstPass::NeedsApproval { passed: finding.passed })
                    && *final(store) == *old(store)
            } else {
                r matches GuardedGetFirstPass::Direct(resp) && get::is_get_refusal(
                    resp,
                    key@,
                    requests::policy_names(ctx.kv_process_policies@, key@),
                    ctx.requester,
                    finding,
                ) && *final(store) == *old(store)
            },
{
    let finding = store::judge(&*store, key, ctx.guard_chain, ctx.guard_audit_token);
    let allowed = requests::policy_for(ctx.kv_process_policies, key);
    let judged = with_mode(ctx, GuardCheckMode::Evaluate);
    match approval::first_pass(key, allowed, ctx.requester, &finding) {
        FirstPass::RunHandler => GuardedGetFirstPass::Direct(
            requests::handle_get(store, &judged, key.to_owned(), false),
        ),
        FirstPass::Refuse(resp) => GuardedGetFirstPass::Direct(resp),
        FirstPass::AskUser => GuardedGetFirstPass::NeedsApproval { passed: finding.passed },
    }
}

/// `req` asks for the value of `key`.
pub open spec fn is_revealing_get(req: Request, key: Seq<char>) -> bool {
    req matches Request::KvGet { key: k, dry_run } && k@ == key && !dry_run
}

/// The second pass, once the user approved: the guard that the entry has now is
/// judged again before the value is read.
pub fn guarded_get_finalize_after_approval<S: SecretStore>(
    store: &mut S,
    ctx: &HandlerCtx,
    key: &str,
) -> (r: Response)
    ensures
        handler::in_reserved_namespace(key@) ==> r is Failure && *final(store) == *old(store),
        get::policy_refuses(
            requests::policy_names(ctx.kv_process_policies@, key@),
            ctx.requester,
        ) ==> r is Failure && *final(store) == *old(store),
        r is Success ==> wire::carries_value(r),
        exists|finding: GuardFinding| #[trigger]
            store::judges(
                *old(store),
                key@,
                ctx.guard_chain,
                ctx.guard_audit_token,
                finding,
            ) && if get::guard_refuses(GuardCheckMode::Evaluate, finding) {
                approval::is_late_refusal(r, finding) && *final(store) == *old(store)
            } else {
                exists|m: &mut S, c: &HandlerCtx, k: String|
                    *m == *old(store) && *final(m) == *final(store) && *c == in_mode(
                        *ctx,
                        GuardCheckMode::AlreadyApproved,
                    ) && k@ == key@ && #[trigger] call_ensures(
                        requests::handle_get::<S>,
                        (m, c, k, false),
                        r,
                    )
            },
{
    let finding = store::judge(&*store, key, ctx.guard_chain, ctx.guard_audit_token);
    match approval::finalize_after_approval(&finding) {
        Err(resp) => resp,
        Ok(mode) => {
            let settled = with_mode(ctx, mode);
            requests::handle_get(store, &settled, key.to_owned(), false)
        },
    }
}

/// How far a request came before the user is asked.
#[derive(Debug, Clone, PartialEq, Eq)]
pub enum Begun {
    /// This is the answer.
    Done(Response),
    /// The user is to be asked whether the value of `key` may be read, and shown
    /// the kinds of the constraints that the requester meets.
    Ask { key: String, passed: Vec<String> },
}

/// Run a request as far as it comes without the user. A get that reveals a value
/// is put to them exactly where the value is guarded and nothing keeps the
/// request out, and nothing of it has been read then. A value that is given out
/// here was found unguarded.
pub fn begin_request<S: SecretStore, H: Host<S>>(
    store: &mut S,
    ctx: &HandlerCtx,
    req: Request,
    host: &mut H,
) -> (r: Begun)
    ensures
        match req {
            Request::KvGet { key, dry_run: false } => *final(host) == *old(host) && exists|
                finding: GuardFinding,
            | #[trigger]
                store::judges(
                    *old(store),
                    key@,
                    ctx.guard_chain,
                    ctx.guard_audit_token,
                    finding,
                ) && if !finding.guarded {
                    r matches Begun::Done(resp) && exists|m: &mut S, c: &HandlerCtx, k: String|
                        *m == *old(store) && *final(m) == *final(store) && *c == in_mode(
                            *ctx,
                            GuardCheckMode::Evaluate,
                        ) && k@ == key@ && #[trigger] call_ensures(
                            requests::handle_get::<S>,
                            (m, c, k, false),
                            resp,
                        )
                } else if asks_user(key@, *ctx, finding) {
                    (r matches Begun::Ask { key: k, passed } && k@ == key@ && passed
                        == finding.passed) && *final(store) == *old(store)
                } else {
                    r matches Begun::Done(resp) && get::is_get_refusal(
                        resp,
                        key@,
                        requests::policy_names(ctx.kv_process_policies@, key@),
                        ctx.requester,
                        finding,
                    ) && *final(store) == *old(store)
                },
            _ => r matches Begun::Done(resp) && exists|m: &mut S, h: &mut H|
                *m == *old(store) && *final(m) == *final(store) && *h == *old(host) && *final(h)
                    == *final(host) && #[trigger] call_ensures(
                    run_request::<S, H>,
                    (m, ctx, req, h),
                    resp,
                ),
        },
        r matches Begun::Done(resp) && wire::carries_value(resp) && !(req is RestartGraceful) ==> (
        exists|key: Seq<char>, finding: GuardFinding|
            is_revealing_get(req, key) && !finding.guarded && #[trigger] store::judges(
                *old(store),
                key,
                ctx.guard_chain,
                ctx.guard_audit_token,
                finding,
            )),
{
    if let Dispatch::GuardedGet { key } = approval::dispatch_request(&req) {
        match guarded_get_first_pass(store, ctx, key.as_str()) {
            GuardedGetFirstPass::NeedsApproval { passed } => Begun::Ask { key, passed },
            GuardedGetFirstPass::Direct(resp) => Begun::Done(resp),
        }
    } else {
        Begun::Done(run_request(store, ctx, req, host))
    }
}

/// Go on with a request that was put to the user. Unless they approved, it is
/// refused with what happened and the store is not touched; if they did, the
/// guard is judged again before the value is read.
pub fn finish_request<S: SecretStore>(
    store: &mut S,
    ctx: &HandlerCtx,
    key: &str,
    outcome: &ApprovalOutcome,
) -> (r: Response)
    ensures
        if *outcome is Approved {
            exists|m: &mut S|
                *m == *old(store) && *final(m) == *final(store) && #[trigger] call_ensures(
                    guarded_get_finalize_after_approval::<S>,
                    (m, ctx, key),
                    r,
                )
        } else {
            wire::is_error(r, ErrorKind::AuthFailed, approval::rejection(*outcome)) && *final(store)
                == *old(store)
        },
        r is Success ==> *outcome is Approved && wire::carries_value(r) && !(
        handler::in_reserved_namespace(key@)) && !get::policy_refuses(
            requests::policy_names(ctx.kv_process_policies@, key@),
            ctx.requester,
        ) && exists|finding: GuardFinding| #[trigger]
            store::judges(
                *old(store),
                key@,
                ctx.guard_chain,
                ctx.guard_audit_token,
                finding,
            ) && !get::guard_refuses(GuardCheckMode::Evaluate, finding),
{
    match approval::approval_result(outcome) {
        Err(resp) => resp,
        Ok(()) => guarded_get_finalize_after_approval(store, ctx, key),
    }
}

/// A guarded value is revealed only where the user approved: where the store
/// finds the entry guarded, the request is refused or put to the user, and what
/// follows reveals the value only to an approved request that the guard lets
/// through once more.
pub proof fn guarded_values_need_approval<S: SecretStore, H: Host<S>>(
    before: S,
    after: S,
    ctx: &HandlerCtx,
    req: Request,
    key: &str,
)
    requires
        is_revealing_get(req, key@),
        forall|guarded: bool| #[trigger] store::tells_guard(before, key@, guarded) ==> guarded,
    ensures
        forall|m: &mut S, h: &mut H, begun: Begun|
            *m == before && #[trigger] call_ensures(
                begin_request::<S, H>,
                (m, ctx, req, h),
                begun,
            ) ==> !(begun matches Begun::Done(resp) && wire::carries_value(resp)),
        forall|m: &mut S, outcome: &ApprovalOutcome, r: Response|
            *m == after && wire::carries_value(r) && #[trigger] call_ensures(
                finish_request::<S>,
                (m, ctx, key, outcome),
                r,
            ) ==> *outcome is Approved && exists|finding: GuardFinding| #[trigger]
                store::judges(after, key@, ctx.guard_chain, ctx.guard_audit_token, finding)
                    && !get::guard_refuses(GuardCheckMode::Evaluate, finding),
{
}

/// No value of the reserved namespace is revealed, guarded or not, whatever the
/// user says.
pub proof fn reserved_values_stay_hidden<S: SecretStore, H: Host<S>>(
    ctx: &HandlerCtx,
    req: Request,
    key: &str,
)
    requires
        is_revealing_get(req, key@),
        handler::in_reserved_namespace(key@),
    ensures
        forall|m: &mut S, h: &mut H, begun: Begun| #[trigger]
            call_ensures(begin_request::<S, H>, (m, ctx, req, h), begun) ==> (
            begun matches Begun::Done(resp) && resp is Failure),
        forall|m: &mut S, outcome: &ApprovalOutcome, r: Response| #[trigger]
            call_ensures(finish_request::<S>, (m, ctx, key, outcome), r) ==> r is Failure,
{
}

} // verus!
