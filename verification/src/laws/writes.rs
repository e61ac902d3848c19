//! Laws of writing, claiming, defining and deleting.

use vstd::prelude::*;

use crate::daemon::claim;
use crate::daemon::claim::{ActiveClaim, ClaimGrant, Ticket};
use crate::daemon::guard;
use crate::daemon::guard::GuardRecord;
use crate::daemon::handler;
use crate::daemon::handler::{DefineOutcome, PinOutcome, ValueMeta};
use crate::daemon::requests;
use crate::daemon::requests::HandlerCtx;
use crate::daemon::set::{KeyState, SetPlan, SetRequest, SetStep, SetterContext, StoreOutcome};
use crate::daemon::store;
use crate::daemon::store::SecretStore;
use crate::laws::replies;
use crate::wire::{
    ErrorKind, GuardConstraintWire, OkPayload, Request, Response, SetSource, SourceSpecWire,
    ValueMetaWire,
};

verus! {

/// A write goes through exactly where the version it expects is the one there
/// is, the claim on the key lets it through, the key may be written, the guard
/// can be built, the times to live go together and there is a value.
pub proof fn which_writes_go_through(
    req: SetRequest,
    seen: &KeyState,
    setter: &SetterContext,
    declared: &[GuardConstraintWire],
    fence: Result<(), Response>,
    record: Result<Option<GuardRecord>, Response>,
    r: Result<SetPlan, Response>,
)
    requires
        declared@ == req.guard_constraints@,
        call_ensures(claim::check_claim_fence, (&seen.active_claim, &req.ticket), fence),
        call_ensures(
            guard::plan_guard_record,
            (declared, setter.token, setter.chain, setter.policy),
            record,
        ),
        call_ensures(crate::daemon::set::admit_set, (req, seen, setter), r),
    ensures
        ({
            let agrees = req.expected_version is None || req.expected_version == Some(seen.version);
            let may_write = replies::is_key(req.key@) && !replies::is_own(req.key@);
            &&& r is Ok <==> agrees && fence is Ok && may_write && record is Ok && req.ttl is Ok
                && req.value is Some
            &&& r matches Err(resp) ==> (resp matches Response::Failure(body) && {
                let kind = body.error.kind;
                &&& !agrees <==> kind == ErrorKind::CasMismatch
                &&& !agrees ==> body.error.current_version == Some(seen.version)
                &&& agrees && fence is Err <==> kind == ErrorKind::ClaimTokenMismatch
                &&& agrees && fence is Ok && !may_write ==> kind == ErrorKind::BadRequest
                &&& agrees && fence is Ok && may_write && record is Ok ==> kind
                    == ErrorKind::BadRequest
                &&& agrees && fence is Ok && may_write && record is Ok && req.ttl is Err
                    ==> body.error.message@ == req.ttl->Err_0@
            })
        }),
{
    replies::keys_are_protocol_keys(req.key@);
}

/// What is written is what was asked for: the key, the value, the times to live
/// and the guard that was declared.
pub proof fn what_is_written_is_what_was_asked_for(
    req: SetRequest,
    seen: &KeyState,
    setter: &SetterContext,
    declared: &[GuardConstraintWire],
    record: Result<Option<GuardRecord>, Response>,
    plan: SetPlan,
)
    requires
        declared@ == req.guard_constraints@,
        call_ensures(
            guard::plan_guard_record,
            (declared, setter.token, setter.chain, setter.policy),
            record,
        ),
        call_ensures(crate::daemon::set::admit_set, (req, seen, setter), Ok(plan)),
    ensures
        plan.key@ == req.key@,
        req.value matches Some(v) && plan.value@ == v@,
        plan.soft_ttl_secs == req.soft_ttl_secs,
        plan.hard_ttl_secs == req.hard_ttl_secs,
        record matches Ok(g) && (g is Some <==> plan.guard is Some) && (g is Some ==> plan.guard->0@
            == g->0@),
{
}

/// After the value its guard comes, before anything else: a guard that was
/// declared is attached, and without one what the key had is dropped. A value
/// that was not stored is not acknowledged.
pub proof fn the_guard_comes_next(outcome: StoreOutcome, record: Option<GuardRecord>, r: SetStep)
    requires
        call_ensures(crate::daemon::set::set_stored, (outcome, record), r),
    ensures
        outcome is Stored && record is Some <==> r is InstallGuard,
        outcome is Stored && record is None <==> r is ClearGuard,
        r matches SetStep::InstallGuard { record: g, labels } ==> Some(g) == record && labels@.len()
            == g.constraints@.len(),
        !(outcome is Stored) ==> (r matches SetStep::Reply { reply } && reply is Failure),
{
    if let SetStep::InstallGuard { record: g, labels } = r {
        assert(labels.deep_view().len() == labels@.len());
        assert(g@.constraints.len() == g.constraints@.len());
    }
}

/// A value whose guard could not be attached is taken back; one whose former
/// guard could not be dropped stays. Neither is acknowledged.
pub proof fn values_without_their_guard_are_taken_back(
    installed: bool,
    labels: Vec<String>,
    cleared: bool,
    r: SetStep,
    s: SetStep,
)
    requires
        call_ensures(crate::daemon::set::set_guard_installed, (installed, labels), r),
        call_ensures(crate::daemon::set::set_guard_cleared, (cleared,), s),
    ensures
        installed <==> r is AdvanceVersion,
        !installed ==> (r matches SetStep::RollBack { reply } && reply is Failure),
        r matches SetStep::AdvanceVersion { labels: l } ==> l.deep_view() == labels.deep_view(),
        cleared <==> s is AdvanceVersion,
        !cleared ==> (s matches SetStep::Reply { reply } && reply is Failure),
        s matches SetStep::AdvanceVersion { labels: l } ==> l@.len() == 0,
{
    if let SetStep::AdvanceVersion { labels: l } = s {
        assert(l.deep_view().len() == l@.len());
    }
}

/// A write is acknowledged once its version is counted and its claim ended, with
/// that version and the guard in force.
pub proof fn a_write_is_acknowledged_at_its_end(
    version: Option<u64>,
    labels: Vec<String>,
    released: bool,
    counted: u64,
    r: SetStep,
    s: Response,
)
    requires
        call_ensures(crate::daemon::set::set_version_advanced, (version, labels), r),
        call_ensures(crate::daemon::set::set_claim_released, (released, labels, counted), s),
    ensures
        version matches Some(v) ==> (r matches SetStep::ReleaseClaim { labels: l, version: w }
            && l.deep_view() == labels.deep_view() && w == v),
        version is None ==> (r matches SetStep::Reply { reply } && reply is Failure),
        released <==> s is Success,
        s matches Response::Success(body) ==> (body.payload matches OkPayload::Stored {
            guard_applied,
            version: v,
        } && guard_applied.deep_view() == labels.deep_view() && v == Some(counted)),
{
}

/// An acknowledged write was stored, under its key and with its times to live,
/// and its guard was put in place; its version was counted, which is the one that
/// is told; and last its claim was ended.
pub proof fn acknowledged_writes_are_in_the_store<S: SecretStore>(
    store: S,
    ctx: &HandlerCtx,
    key: String,
    value_b64: String,
    soft_ttl_secs: Option<u64>,
    hard_ttl_secs: Option<u64>,
    declared: Vec<GuardConstraintWire>,
    expected_version: Option<u64>,
    claim_token: Option<String>,
)
    ensures
        forall|m: &mut S, r: Response|
            *m == store && r is Success && #[trigger] call_ensures(
                requests::handle_set::<S>,
                (
                    m,
                    ctx,
                    key,
                    SetSource::Static { value_b64 },
                    soft_ttl_secs,
                    hard_ttl_secs,
                    declared,
                    expected_version,
                    claim_token,
                ),
                r,
            ) ==> exists|p: &SetPlan, at: &mut S|
                *at == store && p.key@ == key@ && p.soft_ttl_secs == soft_ttl_secs
                    && p.hard_ttl_secs == hard_ttl_secs && store::decodes(
                    store,
                    value_b64@,
                    Some(p.value),
                ) && (p.guard is Some <==> declared@.len() > 0
                    || ctx.kv_policy.default_require_same_user) && #[trigger] call_ensures(
                    S::store_value,
                    (at, p),
                    StoreOutcome::Stored,
                ),
        forall|m: &mut S, r: Response|
            (declared@.len() > 0 || ctx.kv_policy.default_require_same_user) && *m == store && r is Success && #[trigger] call_ensures(
                requests::handle_set::<S>,
                (
                    m,
                    ctx,
                    key,
                    SetSource::Static { value_b64 },
                    soft_ttl_secs,
                    hard_ttl_secs,
                    declared,
                    expected_version,
                    claim_token,
                ),
                r,
            ) ==> exists|at: &mut S, k: &str, g: GuardRecord|
                k@ == key@ && #[trigger] call_ensures(S::install_guard, (at, k, g), true),
        forall|m: &mut S, r: Response|
            declared@.len() == 0 && !ctx.kv_policy.default_require_same_user && *m == store && r is Success && #[trigger] call_ensures(
                requests::handle_set::<S>,
                (
                    m,
                    ctx,
                    key,
                    SetSource::Static { value_b64 },
                    soft_ttl_secs,
                    hard_ttl_secs,
                    declared,
                    expected_version,
                    claim_token,
                ),
                r,
            ) ==> exists|at: &mut S, k: &str|
                k@ == key@ && #[trigger] call_ensures(S::clear_guard, (at, k), true),
        forall|m: &mut S, r: Response|
            *m == store && r is Success && #[trigger] call_ensures(
                requests::handle_set::<S>,
                (
                    m,
                    ctx,
                    key,
                    SetSource::Static { value_b64 },
                    soft_ttl_secs,
                    hard_ttl_secs,
                    declared,
                    expected_version,
                    claim_token,
                ),
                r,
            ) ==> exists|at: &mut S, k: &str, version: Option<u64>|
                k@ == key@ && #[trigger] call_ensures(S::advance_version, (at, k), version)
                    && version is Some && (r matches Response::Success(body) && (body.payload
                    matches OkPayload::Stored { version: told, .. } && told == version)),
        forall|m: &mut S, r: Response|
            *m == store && r is Success && #[trigger] call_ensures(
                requests::handle_set::<S>,
                (
                    m,
                    ctx,
                    key,
                    SetSource::Static { value_b64 },
                    soft_ttl_secs,
                    hard_ttl_secs,
                    declared,
                    expected_version,
                    claim_token,
                ),
                r,
            ) ==> exists|at: &mut S, k: &str|
                k@ == key@ && *final(at) == *final(m) && #[trigger] call_ensures(
                    S::clear_claim,
                    (at, k),
                    true,
                ),
{
}

/// A write whose expected version is not the one that the store tells, or that a
/// claim keeps out, changes nothing.
pub proof fn refused_writes_change_nothing<S: SecretStore>(
    store: S,
    ctx: &HandlerCtx,
    key: String,
    source: SetSource,
    soft_ttl_secs: Option<u64>,
    hard_ttl_secs: Option<u64>,
    declared: Vec<GuardConstraintWire>,
    expected_version: Option<u64>,
    claim_token: Option<String>,
)
    ensures
        forall|m: &mut S, r: Response|
            *m == store && #[trigger] call_ensures(
                requests::handle_set::<S>,
                (
                    m,
                    ctx,
                    key,
                    source,
                    soft_ttl_secs,
                    hard_ttl_secs,
                    declared,
                    expected_version,
                    claim_token,
                ),
                r,
            ) && (r matches Response::Failure(body) && (body.error.kind == ErrorKind::CasMismatch
                || body.error.kind == ErrorKind::ClaimTokenMismatch)) ==> *final(m) == store,
{
}

/// A granted claim is recorded for as long as was asked, from the store's own
/// time on, and the caller is told the token that the store gave it.
pub proof fn granted_claims_are_recorded<S: SecretStore>(
    store: S,
    key: String,
    expected_version: u64,
    duration_secs: u64,
)
    requires
        forall|now: u64| #[trigger]
            call_ensures(S::now_epoch_ms, (&store,), now) ==> now + 1000 * duration_secs
                <= u64::MAX,
    ensures
        forall|m: &mut S, r: Response|
            *m == store && r is Success && #[trigger] call_ensures(
                requests::handle_claim::<S>,
                (m, key, expected_version, duration_secs),
                r,
            ) ==> exists|at: &mut S, k: &str, grant: ClaimGrant, token: String, recorded: bool|
                *at == store && *final(at) == *final(m) && k@ == key@ && #[trigger] call_ensures(
                    S::record_claim,
                    (at, k, grant),
                    (token, recorded),
                ) && recorded && call_ensures(S::now_epoch_ms, (&store,), grant.taken_at_ms)
                    && grant.expires_at_ms == grant.taken_at_ms + 1000 * duration_secs && (r matches
                    Response::Success(body) && (body.payload matches OkPayload::Claimed {
                    version,
                    claim_token,
                    claim_expires_in_secs,
                } && version == expected_version && claim_token@ == token@
                    && claim_expires_in_secs == duration_secs)),
{
}

/// A definition that is acknowledged was handed to the store as it came: its
/// key, its source and its times to live.
pub proof fn acknowledged_definitions_are_in_the_store<S: SecretStore>(
    store: S,
    key: String,
    source: SourceSpecWire,
    soft_ttl_secs: Option<u64>,
    hard_ttl_secs: Option<u64>,
    meta: ValueMetaWire,
)
    ensures
        forall|m: &mut S, r: Response|
            *m == store && r is Success && #[trigger] call_ensures(
                requests::handle_define::<S>,
                (m, key, source, soft_ttl_secs, hard_ttl_secs, meta),
                r,
            ) ==> exists|at: &mut S, k: &str, kept: ValueMeta|
                *at == store && *final(at) == *final(m) && k@ == key@ && kept.params@.len()
                    == meta.params@.len() && (meta.type_label is Some ==> kept.type_label.deep_view()
                    == meta.type_label.deep_view()) && #[trigger] call_ensures(
                    S::define,
                    (at, k, source, soft_ttl_secs, hard_ttl_secs, kept),
                    DefineOutcome::Defined,
                ),
{
    assert forall|m: &mut S, r: Response|
        *m == store && r is Success && #[trigger] call_ensures(
            requests::handle_define::<S>,
            (m, key, source, soft_ttl_secs, hard_ttl_secs, meta),
            r,
        ) implies exists|at: &mut S, k: &str, kept: ValueMeta|
        *at == store && *final(at) == *final(m) && k@ == key@ && kept.params@.len()
            == meta.params@.len() && (meta.type_label is Some ==> kept.type_label.deep_view()
            == meta.type_label.deep_view()) && #[trigger] call_ensures(
            S::define,
            (at, k, source, soft_ttl_secs, hard_ttl_secs, kept),
            DefineOutcome::Defined,
        ) by {
        assert forall|kept: ValueMeta| kept@ == handler::stored_meta(meta@) implies (
        #[trigger] kept.params@).len() == meta.params@.len() by {
            assert(kept@.params.len() == kept.params@.len());
            assert(meta@.params.len() == meta.params@.len());
        }
    }
}

/// A deletion asks the store for the key that was named, with its definition
/// where that was asked for too; a pin for the time that was asked for.
pub proof fn deletions_and_pins_reach_the_store<S: SecretStore>(
    store: S,
    ctx: &HandlerCtx,
    key: String,
    with_define: bool,
    duration_secs: u64,
)
    ensures
        forall|m: &mut S, r: Response|
            *m == store && #[trigger] call_ensures(
                requests::handle_request::<S>,
                (m, ctx, Request::KvDel { key, with_define }),
                r,
            ) ==> exists|at: &mut S, k: &str, removed: Option<bool>|
                *at == store && *final(at) == *final(m) && k@ == key@ && #[trigger] call_ensures(
                    S::delete,
                    (at, k, with_define),
                    removed,
                ) && (r matches Response::Success(body) && (body.payload matches
                    OkPayload::Deleted { deleted } && deleted == (removed == Some(true)))),
        forall|m: &mut S, r: Response|
            *m == store && #[trigger] call_ensures(
                requests::handle_request::<S>,
                (m, ctx, Request::KvPin { key, duration_secs }),
                r,
            ) ==> exists|at: &mut S, k: &str, outcome: PinOutcome|
                *at == store && *final(at) == *final(m) && k@ == key@ && #[trigger] call_ensures(
                    S::pin,
                    (at, k, duration_secs, ctx.requester),
                    outcome,
                ) && (outcome is Pinned <==> r is Success),
        forall|m: &mut S, r: Response|
            *m == store && #[trigger] call_ensures(
                requests::handle_request::<S>,
                (m, ctx, Request::KvUnpin { key }),
                r,
            ) ==> exists|at: &mut S, k: &str, found: Option<bool>|
                *at == store && *final(at) == *final(m) && k@ == key@ && #[trigger] call_ensures(
                    S::unpin,
                    (at, k),
                    found,
                ) && (found == Some(true) <==> r is Success),
{
}

/// A write that is acknowledged met the version that it expects, and the claim
/// on the key was nobody's or that of the token that it brought.
pub proof fn acknowledged_writes_met_the_version_and_the_claim<S: SecretStore>(
    store: S,
    ctx: &HandlerCtx,
    key: String,
    value_b64: String,
    soft_ttl_secs: Option<u64>,
    hard_ttl_secs: Option<u64>,
    declared: Vec<GuardConstraintWire>,
    expected_version: Option<u64>,
    claim_token: Option<String>,
)
    ensures
        forall|m: &mut S, r: Response|
            *m == store && r is Success && expected_version is Some && #[trigger] call_ensures(
                requests::handle_set::<S>,
                (
                    m,
                    ctx,
                    key,
                    SetSource::Static { value_b64 },
                    soft_ttl_secs,
                    hard_ttl_secs,
                    declared,
                    expected_version,
                    claim_token,
                ),
                r,
            ) ==> exists|k: &str|
                k@ == key@ && #[trigger] call_ensures(
                    S::version_of,
                    (&store, k),
                    expected_version->0,
                ),
        (claim_token is None && forall|k: &str, active: Option<ActiveClaim>|
            k@ == key@ && #[trigger] call_ensures(S::active_claim, (&store, k), active) ==> active
                is Some) ==> forall|m: &mut S, r: Response|
            *m == store && #[trigger] call_ensures(
                requests::handle_set::<S>,
                (
                    m,
                    ctx,
                    key,
                    SetSource::Static { value_b64 },
                    soft_ttl_secs,
                    hard_ttl_secs,
                    declared,
                    expected_version,
                    claim_token,
                ),
                r,
            ) ==> r is Failure && *final(m) == store,
        forall|m: &mut S, r: Response|
            *m == store && r is Success && claim_token is Some && (forall|
                k: &str,
                active: Option<ActiveClaim>,
            |
                k@ == key@ && #[trigger] call_ensures(S::active_claim, (&store, k), active)
                    ==> active is Some) && #[trigger] call_ensures(
                requests::handle_set::<S>,
                (
                    m,
                    ctx,
                    key,
                    SetSource::Static { value_b64 },
                    soft_ttl_secs,
                    hard_ttl_secs,
                    declared,
                    expected_version,
                    claim_token,
                ),
                r,
            ) ==> exists|k: &str, active: ActiveClaim, t: &str, read: Ticket|
                k@ == key@ && t@ == claim_token->0@ && #[trigger] call_ensures(
                    S::active_claim,
                    (&store, k),
                    Some(active),
                ) && #[trigger] call_ensures(S::parse_token, (&store, t), read) && (read matches
                    Ticket::Token(x) && (active.token matches Some(y) && x@ == y@)),
{
    assert forall|m: &mut S, r: Response|
        *m == store && r is Success && claim_token is Some && (forall|
            k: &str,
            active: Option<ActiveClaim>,
        |
            k@ == key@ && #[trigger] call_ensures(S::active_claim, (&store, k), active) ==> active
                is Some) && #[trigger] call_ensures(
                requests::handle_set::<S>,
                (
                    m,
                    ctx,
                    key,
                    SetSource::Static { value_b64 },
                    soft_ttl_secs,
                    hard_ttl_secs,
                    declared,
                    expected_version,
                    claim_token,
                ),
                r,
        ) implies exists|k: &str, active: ActiveClaim, t: &str, read: Ticket|
        k@ == key@ && t@ == claim_token->0@ && #[trigger] call_ensures(
            S::active_claim,
            (&store, k),
            Some(active),
        ) && #[trigger] call_ensures(S::parse_token, (&store, t), read) && (read matches
            Ticket::Token(x) && (active.token matches Some(y) && x@ == y@)) by {
        let (req, seen) = choose|req: SetRequest, seen: KeyState| #[trigger]
            requests::set_observed(
                store,
                req,
                seen,
                SetSource::Static { value_b64 },
                claim_token,
            ) && req.key@ == key@ && crate::daemon::set::set_admitted(
                req,
                seen,
                requests::setter_of(*ctx),
            );
        let k = choose|k: &str|
            k@ == key@ && #[trigger] call_ensures(S::active_claim, (&store, k), seen.active_claim);
        let active = seen.active_claim->0;
        assert(call_ensures(S::active_claim, (&store, k), Some(active)));
    }
}

/// The guard that is attached to a value is the one that was planned for what
/// was declared, and its kinds are told.
pub proof fn attached_guards_are_the_planned_ones<S: SecretStore>(
    store: S,
    ctx: &HandlerCtx,
    key: String,
    value_b64: String,
    soft_ttl_secs: Option<u64>,
    hard_ttl_secs: Option<u64>,
    declared: Vec<GuardConstraintWire>,
    asked: &[GuardConstraintWire],
    expected_version: Option<u64>,
    claim_token: Option<String>,
    record: GuardRecord,
    kinds: Vec<String>,
)
    requires
        asked@ == declared@,
        call_ensures(
            guard::plan_guard_record,
            (asked, ctx.guard_audit_token, ctx.guard_chain, ctx.kv_policy),
            Ok(Some(record)),
        ),
        call_ensures(guard::applied_kinds, (&record,), kinds),
    ensures
        forall|m: &mut S, r: Response|
            *m == store && r is Success && #[trigger] call_ensures(
                requests::handle_set::<S>,
                (
                    m,
                    ctx,
                    key,
                    SetSource::Static { value_b64 },
                    soft_ttl_secs,
                    hard_ttl_secs,
                    declared,
                    expected_version,
                    claim_token,
                ),
                r,
            ) ==> exists|at: &mut S, k: &str, g: GuardRecord|
                k@ == key@ && g@ == record@ && #[trigger] call_ensures(
                    S::install_guard,
                    (at, k, g),
                    true,
                ),
        forall|m: &mut S, r: Response|
            *m == store && r is Success && #[trigger] call_ensures(
                requests::handle_set::<S>,
                (
                    m,
                    ctx,
                    key,
                    SetSource::Static { value_b64 },
                    soft_ttl_secs,
                    hard_ttl_secs,
                    declared,
                    expected_version,
                    claim_token,
                ),
                r,
            ) ==> (r matches Response::Success(body) && (body.payload matches OkPayload::Stored {
                guard_applied,
                ..
            } && guard_applied.deep_view() == kinds.deep_view())),
{
}

/// A write whose guard cannot be built is refused as the guard is.
pub proof fn unbuildable_guards_refuse_the_write(
    req: SetRequest,
    seen: &KeyState,
    setter: &SetterContext,
    declared: &[GuardConstraintWire],
    refusal: Response,
    r: Result<SetPlan, Response>,
)
    requires
        declared@ == req.guard_constraints@,
        call_ensures(
            guard::plan_guard_record,
            (declared, setter.token, setter.chain, setter.policy),
            Err(refusal),
        ),
        req.expected_version is None,
        seen.active_claim is None,
        replies::is_key(req.key@),
        !replies::is_own(req.key@),
        call_ensures(crate::daemon::set::admit_set, (req, seen, setter), r),
    ensures
        r matches Err(resp) && (resp matches Response::Failure(body) && (refusal matches
            Response::Failure(why) && body.error.kind == why.error.kind && body.error.message@
            == why.error.message@)),
{
    replies::keys_are_protocol_keys(req.key@);
}

} // verus!
