//! `kv.set`: what a write must pass before anything is stored, and the order in
//! which the store is then changed.
//!
//! A refused write is answered before the store is touched. An admitted one
//! stores the value, puts its guard in place (or drops a former one), advances
//! the key's version and ends the claim it was made under, in this order. Each
//! step is taken only once the one before it succeeded.

use vstd::prelude::*;

use crate::daemon::claim;
use crate::daemon::claim::{ActiveClaim, Ticket};
use crate::daemon::guard;
use crate::daemon::guard::{GetterAuditToken, GetterProcess, GuardRecord, ResolvedKvPolicy};
use crate::daemon::handler;
use crate::text;
use crate::wire;
use crate::wire::{ErrorKind, GuardConstraintWire, OkPayload, Response};

verus! {

/// What the store shows of a key that is about to be written.
#[derive(Debug, Clone, PartialEq, Eq)]
pub struct KeyState {
    pub version: u64,
    pub active_claim: Option<ActiveClaim>,
}

/// What is known of the process that writes, and the policy it writes under.
pub struct SetterContext<'a> {
    pub token: Option<GetterAuditToken>,
    pub chain: Option<&'a [GetterProcess]>,
    pub policy: &'a ResolvedKvPolicy,
}

/// A `kv.set` as it arrived: `ttl` says whether the two times to live go
/// together, `value` is the decoded value, where it could be decoded.
pub struct SetRequest {
    pub key: String,
    pub value: Option<Vec<u8>>,
    pub soft_ttl_secs: Option<u64>,
    pub hard_ttl_secs: Option<u64>,
    pub ttl: Result<(), String>,
    pub guard_constraints: Vec<GuardConstraintWire>,
    pub expected_version: Option<u64>,
    pub ticket: Ticket,
}

/// A write that passed every check.
#[derive(Debug, Clone, PartialEq, Eq)]
pub struct SetPlan {
    pub key: String,
    pub value: Vec<u8>,
    pub soft_ttl_secs: Option<u64>,
    pub hard_ttl_secs: Option<u64>,
    pub guard: Option<GuardRecord>,
}

/// The guard that the write leads to, or the refusal.
pub open spec fn set_guard_plan(req: SetRequest, setter: SetterContext) -> Result<
    Option<guard::RecordView>,
    (ErrorKind, Seq<char>),
> {
    guard::planned_record(
        req.guard_constraints@,
        setter.token,
        guard::known_chain(setter.chain),
        setter.policy.default_require_same_user,
        setter.policy.shell_names.deep_view(),
    )
}

/// The caller did not ask for another version than the one the key is at.
pub open spec fn version_agrees(req: SetRequest, seen: KeyState) -> bool {
    req.expected_version matches Some(v) ==> v == seen.version
}

/// The write passes every check.
pub open spec fn set_admitted(req: SetRequest, seen: KeyState, setter: SetterContext) -> bool {
    &&& version_agrees(req, seen)
    &&& claim::fence_opens(seen.active_claim, req.ticket)
    &&& handler::is_protocol_key(req.key@)
    &&& !handler::in_reserved_namespace(req.key@)
    &&& set_guard_plan(req, setter) is Ok
    &&& req.ttl is Ok
    &&& req.value is Some
}

/// `plan` is the write that an admitted request leads to.
pub open spec fn is_plan(plan: SetPlan, req: SetRequest, setter: SetterContext) -> bool {
    &&& plan.key@ == req.key@
    &&& Some(plan.value) == req.value
    &&& plan.soft_ttl_secs == req.soft_ttl_secs
    &&& plan.hard_ttl_secs == req.hard_ttl_secs
    &&& match set_guard_plan(req, setter)->Ok_0 {
        Some(record) => plan.guard matches Some(g) && g@ == record,
        None => plan.guard is None,
    }
}

/// `resp` answers the first check that the write does not pass.
pub open spec fn is_set_refusal(
    resp: Response,
    req: SetRequest,
    seen: KeyState,
    setter: SetterContext,
) -> bool {
    if !version_agrees(req, seen) {
        wire::is_cas_mismatch(resp, seen.version)
    } else if !claim::fence_opens(seen.active_claim, req.ticket) {
        wire::is_error(
            resp,
            ErrorKind::ClaimTokenMismatch,
            if req.ticket is Missing {
                "a refresh is already in progress for this key; wait for it to finish, or pass the token from your own `kv claim`"@
            } else {
                "this claim token is no longer the one holding the key: the claim lapsed and another caller took over. Re-read the key and claim again"@
            },
        )
    } else if !handler::is_protocol_key(req.key@) {
        handler::is_bad_key(resp, req.key@)
    } else if handler::in_reserved_namespace(req.key@) {
        wire::is_error(
            resp,
            ErrorKind::BadRequest,
            "namespace "@ + text::debug_text("authsock"@)
                + " is reserved and cannot be written to"@,
        )
    } else if set_guard_plan(req, setter) is Err {
        let (kind, message) = set_guard_plan(req, setter)->Err_0;
        wire::is_error(resp, kind, message)
    } else if req.ttl is Err {
        wire::is_error(resp, ErrorKind::BadRequest, req.ttl->Err_0@)
    } else {
        wire::is_error(resp, ErrorKind::BadRequest, "value_b64 is not valid base64"@)
    }
}

/// Check a `kv.set` against what the store shows of the key: the write to carry
/// out, or the refusal of the first check it does not pass. The version comes
/// first, then the claim, the key, the guard, the times to live and the value.
pub fn admit_set(req: SetRequest, seen: &KeyState, setter: &SetterContext) -> (r: Result<
    SetPlan,
    Response,
>)
    ensures
        r is Ok <==> set_admitted(req, *seen, *setter),
        r matches Ok(plan) ==> is_plan(plan, req, *setter),
        r matches Err(resp) ==> is_set_refusal(resp, req, *seen, *setter),
{
    if let Some(expected) = req.expected_version {
        if seen.version != expected {
            return Err(Response::cas_mismatch(seen.version));
        }
    }
    match claim::check_claim_fence(&seen.active_claim, &req.ticket) {
        Err(resp) => {
            return Err(resp);
        },
        Ok(()) => {},
    }
    match handler::validate_protocol_key(req.key.as_str()) {
        Err(resp) => {
            return Err(resp);
        },
        Ok(()) => {},
    }
    match handler::reject_reserved_namespace_write(req.key.as_str()) {
        Err(resp) => {
            return Err(resp);
        },
        Ok(()) => {},
    }
    let guard = match guard::plan_guard_record(
        req.guard_constraints.as_slice(),
        setter.token,
        setter.chain,
        setter.policy,
    ) {
        Err(resp) => {
            return Err(resp);
        },
        Ok(g) => g,
    };
    match req.ttl {
        Err(e) => {
            return Err(Response::error(ErrorKind::BadRequest, e.as_str()));
        },
        Ok(()) => {},
    }
    match req.value {
        None => Err(Response::error(ErrorKind::BadRequest, "value_b64 is not valid base64")),
        Some(value) => Ok(
            SetPlan {
                key: req.key,
                value,
                soft_ttl_secs: req.soft_ttl_secs,
                hard_ttl_secs: req.hard_ttl_secs,
                guard,
            },
        ),
    }
}

/// What the store said to storing the value.
#[derive(Debug, Clone, PartialEq, Eq)]
pub enum StoreOutcome {
    Stored,
    InvalidKey(String),
    CapMismatch,
}

/// What an admitted write does next. `labels` are the kinds of the guard that
/// is in place.
#[derive(Debug, Clone, PartialEq, Eq)]
pub enum SetStep {
    /// Attach the guard record to the key.
    InstallGuard { record: GuardRecord, labels: Vec<String> },
    /// Drop whatever guard the key had.
    ClearGuard,
    /// Delete the value that was just stored, whatever comes of it, and reply.
    RollBack { reply: Response },
    /// Advance the key's version.
    AdvanceVersion { labels: Vec<String> },
    /// End the claim that the write was made under.
    ReleaseClaim { labels: Vec<String>, version: u64 },
    /// Nothing more to do.
    Reply { reply: Response },
}

/// After the value was stored: the guard comes next.
pub fn set_stored(outcome: StoreOutcome, guard: Option<GuardRecord>) -> (r: SetStep)
    ensures
        step_move(r) == after_store(outcome is Stored, guard is Some),
        match outcome {
            StoreOutcome::Stored => match guard {
                Some(g) => r matches SetStep::InstallGuard { record, labels } && record == g
                    && labels.deep_view() == g@.constraints.map_values(
                    |c: guard::ConstraintView| guard::kind_label(c),
                ),
                None => r is ClearGuard,
            },
            StoreOutcome::InvalidKey(e) => r matches SetStep::Reply { reply } && wire::is_error(
                reply,
                ErrorKind::BadRequest,
                e@,
            ),
            StoreOutcome::CapMismatch => r matches SetStep::Reply { reply } && wire::is_error(
                reply,
                ErrorKind::Internal,
                "capability mismatch"@,
            ),
        },
{
    match outcome {
        StoreOutcome::Stored => match guard {
            Some(record) => {
                let labels = guard::applied_kinds(&record);
                SetStep::InstallGuard { record, labels }
            },
            None => SetStep::ClearGuard,
        },
        StoreOutcome::InvalidKey(e) => SetStep::Reply {
            reply: Response::error(ErrorKind::BadRequest, e.as_str()),
        },
        StoreOutcome::CapMismatch => SetStep::Reply {
            reply: Response::error(ErrorKind::Internal, "capability mismatch"),
        },
    }
}

/// After the guard was attached. A value whose guard could not be attached is
/// taken back: it was meant to be guarded.
pub fn set_guard_installed(installed: bool, labels: Vec<String>) -> (r: SetStep)
    ensures
        step_move(r) == after_guard(true, installed),
        if installed {
            r == (SetStep::AdvanceVersion { labels })
        } else {
            r matches SetStep::RollBack { reply } && wire::is_error(
                reply,
                ErrorKind::Internal,
                "capability mismatch (guard)"@,
            )
        },
{
    if installed {
        SetStep::AdvanceVersion { labels }
    } else {
        SetStep::RollBack {
            reply: Response::error(ErrorKind::Internal, "capability mismatch (guard)"),
        }
    }
}

/// After a former guard was dropped. Where that failed the value stays: the
/// guard left in place only makes it harder to read.
pub fn set_guard_cleared(cleared: bool) -> (r: SetStep)
    ensures
        step_move(r) == after_guard(false, cleared),
        if cleared {
            r matches SetStep::AdvanceVersion { labels } && labels.deep_view() == Seq::<
                Seq<char>,
            >::empty()
        } else {
            r matches SetStep::Reply { reply } && wire::is_error(
                reply,
                ErrorKind::Internal,
                "capability mismatch (guard)"@,
            )
        },
{
    if cleared {
        let labels: Vec<String> = Vec::new();
        assert(labels.deep_view() =~= Seq::<Seq<char>>::empty());
        SetStep::AdvanceVersion { labels }
    } else {
        SetStep::Reply {
            reply: Response::error(ErrorKind::Internal, "capability mismatch (guard)"),
        }
    }
}

/// After the version was advanced to `version`.
pub fn set_version_advanced(version: Option<u64>, labels: Vec<String>) -> (r: SetStep)
    ensures
        step_move(r) == after_version(version is Some),
        match version {
            Some(v) => r == (SetStep::ReleaseClaim { labels, version: v }),
            None => r matches SetStep::Reply { reply } && wire::is_error(
                reply,
                ErrorKind::Internal,
                "capability mismatch"@,
            ),
        },
{
    match version {
        Some(v) => SetStep::ReleaseClaim { labels, version: v },
        None => SetStep::Reply {
            reply: Response::error(ErrorKind::Internal, "capability mismatch"),
        },
    }
}

/// After the claim was ended: the reply.
pub fn set_claim_released(released: bool, labels: Vec<String>, version: u64) -> (r: Response)
    ensures
        after_claim(released) is Acknowledge <==> r is Success,
        if released {
            wire::is_ok(r, (OkPayload::Stored { guard_applied: labels, version: Some(version) }))
        } else {
            wire::is_error(r, ErrorKind::Internal, "capability mismatch (claim)"@)
        },
{
    if released {
        Response::set_ack_with_guard_and_version(labels, version)
    } else {
        Response::error(ErrorKind::Internal, "capability mismatch (claim)")
    }
}

/// What a write does next, without what it carries.
pub enum SetMove {
    InstallGuard,
    ClearGuard,
    RollBack,
    AdvanceVersion,
    ReleaseClaim,
    Acknowledge,
    Fail,
}

/// The move that a step stands for.
pub open spec fn step_move(step: SetStep) -> SetMove {
    match step {
        SetStep::InstallGuard { .. } => SetMove::InstallGuard,
        SetStep::ClearGuard => SetMove::ClearGuard,
        SetStep::RollBack { .. } => SetMove::RollBack,
        SetStep::AdvanceVersion { .. } => SetMove::AdvanceVersion,
        SetStep::ReleaseClaim { .. } => SetMove::ReleaseClaim,
        SetStep::Reply { .. } => SetMove::Fail,
    }
}

/// The move after the value was stored or not.
pub open spec fn after_store(stored: bool, guarded: bool) -> SetMove {
    if !stored {
        SetMove::Fail
    } else if guarded {
        SetMove::InstallGuard
    } else {
        SetMove::ClearGuard
    }
}

/// The move after the guard was changed or not.
pub open spec fn after_guard(guarded: bool, changed: bool) -> SetMove {
    if changed {
        SetMove::AdvanceVersion
    } else if guarded {
        SetMove::RollBack
    } else {
        SetMove::Fail
    }
}

/// The move after the version was advanced or not.
pub open spec fn after_version(advanced: bool) -> SetMove {
    if advanced {
        SetMove::ReleaseClaim
    } else {
        SetMove::Fail
    }
}

/// The move after the claim was ended or not.
pub open spec fn after_claim(released: bool) -> SetMove {
    if released {
        SetMove::Acknowledge
    } else {
        SetMove::Fail
    }
}

/// Whether the store took each change that a write asks of it.
pub struct StoreReplies {
    pub stored: bool,
    pub guard: bool,
    pub version: bool,
    pub claim: bool,
}

/// The moves of an admitted write once it asked for its value to be stored,
/// when the store answers with `replies`.
pub open spec fn set_moves(guarded: bool, replies: StoreReplies) -> Seq<SetMove> {
    let first = after_store(replies.stored, guarded);
    let second = after_guard(guarded, replies.guard);
    let third = after_version(replies.version);
    let fourth = after_claim(replies.claim);
    if first is Fail {
        seq![first]
    } else if !(second is AdvanceVersion) {
        seq![first, second]
    } else if !(third is ReleaseClaim) {
        seq![first, second, third]
    } else {
        seq![first, second, third, fourth]
    }
}

/// A write is acknowledged exactly when the store took every change: the value,
/// the guard, the version and the end of the claim. So every acknowledged write
/// has advanced the version and ended its claim.
pub proof fn acknowledged_writes_are_complete(guarded: bool, replies: StoreReplies)
    ensures
        set_moves(guarded, replies).last() is Acknowledge <==> replies.stored && replies.guard
            && replies.version && replies.claim,
        set_moves(guarded, replies).last() is Acknowledge ==> set_moves(guarded, replies) == seq![
            if guarded {
                SetMove::InstallGuard
            } else {
                SetMove::ClearGuard
            },
            SetMove::AdvanceVersion,
            SetMove::ReleaseClaim,
            SetMove::Acknowledge,
        ],
{
}

/// A value that was to be guarded does not stay behind without its guard: where
/// the guard is refused, the write goes on to take the value back, and it does
/// so in no other case.
pub proof fn unguarded_values_are_taken_back(guarded: bool, replies: StoreReplies)
    ensures
        set_moves(guarded, replies).last() is RollBack <==> guarded && replies.stored
            && !replies.guard,
{
}

} // verus!
