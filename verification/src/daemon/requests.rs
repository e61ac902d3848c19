//! The daemon's centre: one request in, one response out.
//!
//! A request is always answered, a malformed or failed one by a failure
//! response. What the store answers on the way is up to the store; what is
//! promised here holds whatever that is.

use vstd::pervasive::unreached;
use vstd::prelude::*;
use vstd::string::StringSliceAdditionalSpecFns;

use crate::chain;
use crate::daemon::claim;
use crate::daemon::claim::{ActiveClaim, ClaimGrant, Ticket};
use crate::daemon::entries;
use crate::daemon::entries::EntrySnapshot;
use crate::daemon::get;
use crate::daemon::get::{
    EntryState, ExtendOutcome, FinishStep, GetStep, GuardCheckMode, GuardFinding,
    RegenerateDefOutcome, RegenerateOutcome,
};
use crate::daemon::guard;
use crate::daemon::guard::{GetterAuditToken, GetterProcess, ProcessInfo, ResolvedKvPolicy};
use crate::daemon::handler;
use crate::daemon::handler::{DefineOutcome, PinOutcome, ValueMeta};
use crate::daemon::otp_adapter;
use crate::daemon::otp_adapter::OtpError;
use crate::daemon::set::{
    KeyState, SetPlan, SetRequest, SetStep, SetterContext, StoreOutcome,
};
use crate::daemon::store;
use crate::daemon::store::SecretStore;
use crate::otp_type;
use crate::otp_type::OtpOverrides;
use crate::text;
use crate::wire;
use crate::wire::{
    ErrorKind, FdaStatusWire, GuardConstraintWire, OkPayload, Request, Response, SetSource,
    SourceSpecWire, ValueMetaWire,
};

verus! {

/// The processes that may read a key.
#[derive(Debug, Clone, PartialEq, Eq)]
pub struct ProcessPolicy {
    pub key: String,
    pub allowed: Vec<String>,
}

/// What a request is handled with beside the store: who the daemon is, what is
/// known of the requester, and the policies in force.
pub struct HandlerCtx<'a> {
    pub pid: u32,
    pub version: &'a str,
    pub socket: &'a str,
    pub full_disk_access: Option<FdaStatusWire>,
    /// The requester's ancestry, where it is known.
    pub requester: Option<&'a [ProcessInfo]>,
    pub kv_process_policies: &'a [ProcessPolicy],
    /// The requester's ancestry as guards judge it, where it is known.
    pub guard_chain: Option<&'a [GetterProcess]>,
    pub guard_audit_token: Option<GetterAuditToken>,
    pub kv_policy: &'a ResolvedKvPolicy,
    pub guard_check_mode: GuardCheckMode,
}

/// The names that the first policy for `key` allows.
pub open spec fn policy_names(policies: Seq<ProcessPolicy>, key: Seq<char>) -> Option<
    Seq<Seq<char>>,
>
    decreases policies.len(),
{
    if policies.len() == 0 {
        None
    } else if policies[0].key@ == key {
        Some(policies[0].allowed.deep_view())
    } else {
        policy_names(policies.skip(1), key)
    }
}

/// The names that the policy for `key` allows, where there is one.
pub fn policy_for<'a>(policies: &'a [ProcessPolicy], key: &str) -> (r: Option<&'a [String]>)
    ensures
        get::names_of(r) == policy_names(policies@, key@),
{
    let mut i: usize = 0;
    assert(policies@.skip(0) =~= policies@);
    while i < policies.len()
        invariant
            i <= policies.len(),
            policy_names(policies@, key@) == policy_names(policies@.skip(i as int), key@),
        decreases policies.len() - i,
    {
        proof {
            assert(policies@.skip(i as int)[0] == policies@[i as int]);
            assert(policies@.skip(i as int).skip(1) =~= policies@.skip(i + 1));
        }
        if text::same_text(policies[i].key.as_str(), key) {
            let names = policies[i].allowed.as_slice();
            assert(names.deep_view() =~= policies@[i as int].allowed.deep_view());
            return Some(names);
        }
        i += 1;
    }
    None
}

/// The guard that a write declaring `declared` leads to, or its refusal.
pub open spec fn guard_plan(declared: Seq<GuardConstraintWire>, ctx: HandlerCtx) -> Result<
    Option<guard::RecordView>,
    (ErrorKind, Seq<char>),
> {
    guard::planned_record(
        declared,
        ctx.guard_audit_token,
        guard::known_chain(ctx.guard_chain),
        ctx.kv_policy.default_require_same_user,
        ctx.kv_policy.shell_names.deep_view(),
    )
}

/// The kinds of the constraints of a guard.
pub open spec fn plan_labels(plan: Option<guard::RecordView>) -> Seq<Seq<char>> {
    match plan {
        Some(record) => record.constraints.map_values(
            |c: guard::ConstraintView| guard::kind_label(c),
        ),
        None => Seq::empty(),
    }
}

/// `r` acknowledges a write under a guard of these kinds.
pub open spec fn is_write_ack(r: Response, labels: Seq<Seq<char>>) -> bool {
    r matches Response::Success(body) && (body.payload matches OkPayload::Stored {
        guard_applied,
        version,
    } && guard_applied.deep_view() == labels && version is Some)
}

/// `r` refuses because of the key's version or its claim.
pub open spec fn is_arbitration_refusal(r: Response) -> bool {
    r matches Response::Failure(e) && (e.error.kind == ErrorKind::CasMismatch || e.error.kind
        == ErrorKind::ClaimTokenMismatch || e.error.kind == ErrorKind::AlreadyClaimed)
}

/// Whether callers may write to `key`.
pub open spec fn writable(key: Seq<char>) -> bool {
    handler::is_protocol_key(key) && !handler::in_reserved_namespace(key)
}

/// What is known of the process that writes.
pub open spec fn setter_of<'a>(ctx: HandlerCtx<'a>) -> SetterContext<'a> {
    SetterContext {
        token: ctx.guard_audit_token,
        chain: ctx.guard_chain,
        policy: ctx.kv_policy,
    }
}

/// The store may say `seen` of the key that `req` writes, and read the value,
/// the token and the times to live as `req` has them.
pub open spec fn set_observed<S: SecretStore>(
    store: S,
    req: SetRequest,
    seen: KeyState,
    source: SetSource,
    claim_token: Option<String>,
) -> bool {
    &&& store::tells_version(store, req.key@, seen.version)
    &&& store::tells_claim(store, req.key@, seen.active_claim)
    &&& match claim_token {
        None => req.ticket is Missing,
        Some(t) => store::reads_token(store, t@, req.ticket),
    }
    &&& store::finds_ttl(store, req.soft_ttl_secs, req.hard_ttl_secs, req.ttl)
    &&& match source {
        SetSource::Static { value_b64 } => store::decodes(store, value_b64@, req.value),
    }
}

/// The course of an admitted write: what the store said to each call, and what
/// it was after it.
pub struct SetCourse<S> {
    pub plan: SetPlan,
    pub outcome: StoreOutcome,
    pub stored: S,
    /// The guard was attached, or a former one dropped.
    pub guard_done: bool,
    pub guarded: S,
    /// What came of taking the value back.
    pub deleted: Option<bool>,
    pub taken_back: S,
    pub version: Option<u64>,
    pub counted: S,
    pub released: bool,
    pub ended: S,
}

/// What the store is at the end of the course. A value whose guard was refused
/// is taken back.
pub open spec fn course_end<S>(c: SetCourse<S>) -> S {
    if !(c.outcome is Stored) {
        c.stored
    } else if !c.guard_done {
        if c.plan.guard is Some {
            c.taken_back
        } else {
            c.guarded
        }
    } else if c.version is None {
        c.counted
    } else {
        c.ended
    }
}

/// `r` is the reply at the end of the course: an acknowledgement where the store
/// took every change.
pub open spec fn is_course_reply<S>(
    r: Response,
    c: SetCourse<S>,
    labels: Seq<Seq<char>>,
) -> bool {
    match c.outcome {
        StoreOutcome::InvalidKey(e) => wire::is_error(r, ErrorKind::BadRequest, e@),
        StoreOutcome::CapMismatch => wire::is_error(r, ErrorKind::Internal, "capability mismatch"@),
        StoreOutcome::Stored => if !c.guard_done {
            wire::is_error(r, ErrorKind::Internal, "capability mismatch (guard)"@)
        } else if c.version is None {
            wire::is_error(r, ErrorKind::Internal, "capability mismatch"@)
        } else if !c.released {
            wire::is_error(r, ErrorKind::Internal, "capability mismatch (claim)"@)
        } else {
            r matches Response::Success(body) && (body.payload matches OkPayload::Stored {
                guard_applied,
                version,
            } && guard_applied.deep_view() == labels && version == c.version)
        },
    }
}

/// `c` is a course of the write `req` that ends with the store `end` and the
/// reply `r`.
pub open spec fn is_course<S>(
    c: SetCourse<S>,
    req: SetRequest,
    ctx: HandlerCtx,
    end: S,
    r: Response,
) -> bool {
    &&& crate::daemon::set::is_plan(c.plan, req, setter_of(ctx))
    &&& course_end(c) == end
    &&& is_course_reply(r, c, plan_labels(guard_plan(req.guard_constraints@, ctx)->Ok_0))
}

/// Handle `kv.set`.
pub fn handle_set<S: SecretStore>(
    store: &mut S,
    ctx: &HandlerCtx,
    key: String,
    source: SetSource,
    soft_ttl_secs: Option<u64>,
    hard_ttl_secs: Option<u64>,
    guard_constraints: Vec<GuardConstraintWire>,
    expected_version: Option<u64>,
    claim_token: Option<String>,
) -> (r: Response)
    ensures
        !writable(key@) || guard_plan(guard_constraints@, *ctx) is Err ==> r is Failure
            && *final(store) == *old(store),
        is_arbitration_refusal(r) ==> *final(store) == *old(store),
        r is Success ==> is_write_ack(r, plan_labels(guard_plan(guard_constraints@, *ctx)->Ok_0)),
        exists|req: SetRequest, seen: KeyState| #[trigger]
            set_observed(*old(store), req, seen, source, claim_token) && req.key@ == key@
                && req.soft_ttl_secs == soft_ttl_secs && req.hard_ttl_secs == hard_ttl_secs
                && req.guard_constraints == guard_constraints && req.expected_version
                == expected_version && if crate::daemon::set::set_admitted(
                req,
                seen,
                setter_of(*ctx),
            ) {
                exists|c: SetCourse<S>| #[trigger]
                    is_course(c, req, *ctx, *final(store), r) && (exists|m: &mut S, p: &SetPlan|
                        *m == *old(store) && *final(m) == c.stored && *p == c.plan
                            && #[trigger] call_ensures(S::store_value, (m, p), c.outcome)) && (
                    c.outcome is Stored && c.plan.guard is Some ==> exists|m: &mut S, k: &str|
                        *m == c.stored && *final(m) == c.guarded && k@ == key@
                            && #[trigger] call_ensures(
                            S::install_guard,
                            (m, k, c.plan.guard->0),
                            c.guard_done,
                        )) && (c.outcome is Stored && c.plan.guard is None ==> exists|
                        m: &mut S,
                        k: &str,
                    |
                        *m == c.stored && *final(m) == c.guarded && k@ == key@
                            && #[trigger] call_ensures(S::clear_guard, (m, k), c.guard_done)) && (
                    c.outcome is Stored && c.plan.guard is Some && !c.guard_done ==> exists|
                        m: &mut S,
                        k: &str,
                    |
                        *m == c.guarded && *final(m) == c.taken_back && k@ == key@
                            && #[trigger] call_ensures(S::delete, (m, k, false), c.deleted)) && (
                    c.outcome is Stored && c.guard_done ==> exists|m: &mut S, k: &str|
                        *m == c.guarded && *final(m) == c.counted && k@ == key@
                            && #[trigger] call_ensures(S::advance_version, (m, k), c.version)) && (
                    c.outcome is Stored && c.guard_done && c.version is Some ==> exists|
                        m: &mut S,
                        k: &str,
                    |
                        *m == c.counted && *final(m) == c.ended && k@ == key@
                            && #[trigger] call_ensures(S::clear_claim, (m, k), c.released))
            } else {
                crate::daemon::set::is_set_refusal(r, req, seen, setter_of(*ctx)) && *final(store)
                    == *old(store)
            },
{
    let seen = KeyState {
        version: store.version_of(key.as_str()),
        active_claim: store.active_claim(key.as_str()),
    };
    let ticket = match &claim_token {
        None => Ticket::Missing,
        Some(t) => store.parse_token(t.as_str()),
    };
    let ttl = store.check_ttl(soft_ttl_secs, hard_ttl_secs);
    let SetSource::Static { value_b64 } = source;
    let value = store.decode_value(value_b64.as_str());
    let setter = SetterContext {
        token: ctx.guard_audit_token,
        chain: ctx.guard_chain,
        policy: ctx.kv_policy,
    };
    let req = SetRequest {
        key,
        value,
        soft_ttl_secs,
        hard_ttl_secs,
        ttl,
        guard_constraints,
        expected_version,
        ticket,
    };
    assert(set_observed(*old(store), req, seen, source, claim_token));
    let plan = match crate::daemon::set::admit_set(req, &seen, &setter) {
        Err(resp) => {
            return resp;
        },
        Ok(plan) => plan,
    };
    let ghost labels = plan_labels(guard_plan(guard_constraints@, *ctx)->Ok_0);
    let ghost admitted = plan;
    let outcome = store.store_value(&plan);
    let ghost mut c = SetCourse {
        plan: admitted,
        outcome,
        stored: *store,
        guard_done: false,
        guarded: *store,
        deleted: None,
        taken_back: *store,
        version: None,
        counted: *store,
        released: false,
        ended: *store,
    };
    let key = plan.key;
    let step = match crate::daemon::set::set_stored(outcome, plan.guard) {
        SetStep::InstallGuard { record, labels } => {
            let installed = store.install_guard(key.as_str(), record);
            proof {
                c = SetCourse { guard_done: installed, guarded: *store, ..c };
            }
            crate::daemon::set::set_guard_installed(installed, labels)
        },
        SetStep::ClearGuard => {
            let cleared = store.clear_guard(key.as_str());
            proof {
                c = SetCourse { guard_done: cleared, guarded: *store, ..c };
            }
            crate::daemon::set::set_guard_cleared(cleared)
        },
        step => step,
    };
    let r = match step {
        SetStep::RollBack { reply } => {
            let deleted = store.delete(key.as_str(), false);
            proof {
                c = SetCourse { deleted, taken_back: *store, ..c };
            }
            reply
        },
        SetStep::AdvanceVersion { labels: kinds } => {
            assert(kinds.deep_view() =~= labels);
            let version = store.advance_version(key.as_str());
            proof {
                c = SetCourse { version, counted: *store, ..c };
            }
            match crate::daemon::set::set_version_advanced(version, kinds) {
                SetStep::ReleaseClaim { labels: kinds, version } => {
                    let released = store.clear_claim(key.as_str());
                    proof {
                        c = SetCourse { released, ended: *store, ..c };
                    }
                    crate::daemon::set::set_claim_released(released, kinds, version)
                },
                SetStep::Reply { reply } => reply,
                _ => unreached(),
            }
        },
        SetStep::Reply { reply } => reply,
        _ => unreached(),
    };
    assert(is_course(c, req, *ctx, *store, r));
    r
}

/// What the store says of a key that is about to be claimed.
pub struct ClaimSeen {
    pub has_value: bool,
    pub version: u64,
    pub active: Option<ActiveClaim>,
    pub now_ms: u64,
}

/// The store may say `seen` of `key`.
pub open spec fn claim_observed<S: SecretStore>(
    store: S,
    key: Seq<char>,
    seen: ClaimSeen,
) -> bool {
    &&& store::tells_value(store, key, seen.has_value)
    &&& store::tells_version(store, key, seen.version)
    &&& store::tells_claim(store, key, seen.active)
    &&& call_ensures(S::now_epoch_ms, (&store,), seen.now_ms)
}

/// Handle `kv.claim`.
pub fn handle_claim<S: SecretStore>(
    store: &mut S,
    key: String,
    expected_version: u64,
    duration_secs: u64,
) -> (r: Response)
    ensures
        !handler::is_protocol_key(key@) || !claim::valid_duration(duration_secs) ==> r is Failure
            && *final(store) == *old(store),
        is_arbitration_refusal(r) ==> *final(store) == *old(store),
        r is Success ==> (r matches Response::Success(body) && (body.payload matches OkPayload::Claimed {
            version,
            claim_expires_in_secs,
            ..
        } && version == expected_version && claim_expires_in_secs == duration_secs)),
        exists|seen: ClaimSeen| #[trigger]
            claim_observed(*old(store), key@, seen) && if claim::claim_admitted(
                key@,
                seen.has_value,
                seen.version,
                expected_version,
                duration_secs,
                seen.active,
            ) {
                exists|m: &mut S, k: &str, grant: ClaimGrant, token: String, recorded: bool|
                    *m == *old(store) && *final(m) == *final(store) && k@ == key@
                        && grant.taken_at_ms == seen.now_ms && grant.expires_at_ms == claim::lapse(
                        seen.now_ms,
                        duration_secs,
                    ) && #[trigger] call_ensures(S::record_claim, (m, k, grant), (token, recorded))
                        && claim::is_claim_reply(r, recorded, seen.version, token, duration_secs)
            } else {
                claim::is_claim_refusal(
                    r,
                    key@,
                    seen.has_value,
                    seen.version,
                    expected_version,
                    duration_secs,
                    seen.active,
                ) && *final(store) == *old(store)
            },
{
    let current = store.version_of(key.as_str());
    let active = store.active_claim(key.as_str());
    let has_value = store.has_value(key.as_str());
    let now_ms: u64 = store.now_epoch_ms();
    proof {
        let seen = ClaimSeen { has_value, version: current, active, now_ms };
        assert(claim_observed(*old(store), key@, seen));
    }
    match claim::plan_claim(
        key.as_str(),
        has_value,
        current,
        expected_version,
        duration_secs,
        &active,
        now_ms,
    ) {
        Err(resp) => resp,
        Ok(grant) => {
            let (token, recorded) = store.record_claim(key.as_str(), grant);
            claim::claim_recorded(recorded, current, token, duration_secs)
        },
    }
}

/// Handle `kv.unclaim`.
pub fn handle_unclaim<S: SecretStore>(store: &mut S, key: String, claim_token: String) -> (r:
    Response)
    ensures
        is_arbitration_refusal(r) ==> *final(store) == *old(store),
        exists|active: Option<ActiveClaim>, ticket: Ticket| #[trigger]
            store::tells_claim(*old(store), key@, active) && #[trigger] store::reads_token(
                *old(store),
                claim_token@,
                ticket,
            ) && if handler::is_protocol_key(key@) && claim::fence_opens(active, ticket) {
                exists|m: &mut S, k: &str, cleared: bool|
                    *m == *old(store) && *final(m) == *final(store) && k@ == key@
                        && #[trigger] call_ensures(S::clear_claim, (m, k), cleared)
                        && claim::is_unclaim_reply(r, cleared)
            } else {
                claim::is_unclaim_refusal(r, key@) && *final(store) == *old(store)
            },
{
    let active = store.active_claim(key.as_str());
    let ticket = store.parse_token(claim_token.as_str());
    assert(store::tells_claim(*old(store), key@, active));
    assert(store::reads_token(*old(store), claim_token@, ticket));
    match claim::plan_unclaim(key.as_str(), &active, &ticket) {
        Err(resp) => resp,
        Ok(()) => claim::unclaim_recorded(store.clear_claim(key.as_str())),
    }
}

/// Handle `kv.define`.
pub fn handle_define<S: SecretStore>(
    store: &mut S,
    key: String,
    source: SourceSpecWire,
    soft_ttl_secs: Option<u64>,
    hard_ttl_secs: Option<u64>,
    meta: ValueMetaWire,
) -> (r: Response)
    ensures
        !writable(key@) ==> r is Failure && *final(store) == *old(store),
        r is Success ==> wire::is_ok(r, OkPayload::Defined),
        exists|checked: Result<(), String>, ttl: Result<(), String>| #[trigger]
            store::finds_source(*old(store), source, checked) && #[trigger] store::finds_ttl(
                *old(store),
                soft_ttl_secs,
                hard_ttl_secs,
                ttl,
            ) && if handler::define_admitted(key@, checked, ttl) {
                exists|m: &mut S, k: &str, stored: ValueMeta, outcome: DefineOutcome|
                    *m == *old(store) && *final(m) == *final(store) && k@ == key@ && stored@
                        == handler::stored_meta(meta@) && #[trigger] call_ensures(
                        S::define,
                        (m, k, source, soft_ttl_secs, hard_ttl_secs, stored),
                        outcome,
                    ) && handler::is_define_reply(r, outcome)
            } else {
                handler::is_define_refusal(r, key@, checked, ttl) && *final(store) == *old(store)
            },
{
    let source_check = store.check_source(&source);
    let ttl_check = store.check_ttl(soft_ttl_secs, hard_ttl_secs);
    assert(store::finds_source(*old(store), source, source_check));
    assert(store::finds_ttl(*old(store), soft_ttl_secs, hard_ttl_secs, ttl_check));
    match handler::admit_define(key.as_str(), source_check, ttl_check) {
        Err(resp) => resp,
        Ok(()) => handler::defined_reply(
            store.define(
                key.as_str(),
                source,
                soft_ttl_secs,
                hard_ttl_secs,
                handler::meta_from_wire(meta),
            ),
        ),
    }
}

/// A get that succeeds says that the value can be had where it is a dry run,
/// and carries it where it is not.
pub open spec fn get_reply_fits(r: Response, dry_run: bool) -> bool {
    r is Success ==> if dry_run {
        wire::is_verified(r, "active"@)
    } else {
        wire::carries_value(r)
    }
}

/// Whether the value type of a definition is that of a one-time code.
pub open spec fn declares_otp(meta: Option<ValueMeta>) -> bool {
    meta matches Some(m) && otp_type::labels_otp(m@.type_label)
}

/// Reading the value gave one.
pub open spec fn holds_value(read: Result<Option<&[u8]>, ()>) -> bool {
    read matches Ok(Some(_))
}

/// `r` is the last reply of a get on a key with this value type, where reading
/// its value gave `read` at `now_ms` on the wall clock: an otp-typed key yields
/// the code of its seed, any other its value, both in base64, and a dry run
/// neither.
pub open spec fn gives_out<S: SecretStore>(
    r: Response,
    dry_run: bool,
    meta: Option<ValueMeta>,
    read: Result<Option<&[u8]>, ()>,
    now_ms: u64,
) -> bool {
    match get::finish_step(declares_otp(meta), dry_run) {
        FinishStep::DeriveCode => exists|code: Result<String, OtpError>| #[trigger]
            otp_adapter::is_code(code, meta, read, now_ms / 1000, S::resolve_seed, S::totp)
                && match code {
                Ok(c) => exists|bytes: &[u8], text: String| #[trigger]
                    call_ensures(S::encode_value, (bytes,), text) && bytes@
                        == vstd::utf8::encode_utf8(c@) && get::is_code_reply(r, dry_run, Ok(text)),
                Err(e) => get::is_code_reply(r, dry_run, Err(e)),
            },
        FinishStep::CheckValue => get::is_check_reply(r, holds_value(read)),
        FinishStep::ReadValue => match read {
            Ok(Some(bytes)) => exists|text: String| #[trigger]
                call_ensures(S::encode_value, (bytes,), text) && get::is_value_reply(r, Some(text)),
            _ => get::is_value_reply(r, None),
        },
    }
}

/// Shape the reply to a get whose value can be read. Whether the value is given
/// out or not, the store is asked for it once more, in the same way.
pub fn finish_get<S: SecretStore>(store: &mut S, key: &str, dry_run: bool) -> (r: Response)
    ensures
        get_reply_fits(r, dry_run),
        exists|
            meta: Option<ValueMeta>,
            m: &mut S,
            read: Result<Option<&[u8]>, ()>,
            now_ms: u64,
        |
            call_ensures(S::meta_of, (&*old(store), key), meta) && (declares_otp(meta)
                ==> call_ensures(S::now_epoch_ms, (&*old(store),), now_ms)) && *m == *old(store)
                && *final(m) == *final(store) && #[trigger] call_ensures(S::get, (m, key), read)
                && #[trigger] gives_out::<S>(r, dry_run, meta, read, now_ms),
{
    let meta = store.meta_of(key);
    let is_otp = match &meta {
        Some(m) => otp_type::meta_is_otp(m),
        None => false,
    };
    match get::finish_get(is_otp, dry_run) {
        FinishStep::DeriveCode => {
            let ghost declared = meta;
            let now_ms: u64 = store.now_epoch_ms();
            let read = store.get(key);
            let code = otp_adapter::get_code(meta, read, now_ms / 1000, S::resolve_seed, S::totp);
            let reply = match code {
                Ok(c) => {
                    let text = S::encode_value(c.as_str().as_bytes());
                    get::finish_code(dry_run, Ok(text))
                },
                Err(e) => get::finish_code(dry_run, Err(e)),
            };
            assert(gives_out::<S>(reply, dry_run, declared, read, now_ms));
            reply
        },
        FinishStep::CheckValue => {
            let read = store.get(key);
            let readable = match read {
                Ok(Some(_)) => true,
                _ => false,
            };
            let reply = get::finish_check(readable);
            assert(gives_out::<S>(reply, dry_run, meta, read, 0));
            reply
        },
        FinishStep::ReadValue => {
            let read = store.get(key);
            let reply = match read {
                Ok(Some(bytes)) => get::finish_value(Some(S::encode_value(bytes))),
                _ => get::finish_value(None),
            };
            assert(gives_out::<S>(reply, dry_run, meta, read, 0));
            reply
        },
    }
}

/// Whether the store has a value of the key that can be read now.
fn can_read<S: SecretStore>(store: &mut S, key: &str) -> (r: bool)
    ensures
        exists|m: &mut S, read: Result<Option<&[u8]>, ()>|
            *m == *old(store) && *final(m) == *final(store) && #[trigger] call_ensures(
                S::get,
                (m, key),
                read,
            ) && r == holds_value(read),
{
    match store.get(key) {
        Ok(Some(_)) => true,
        _ => false,
    }
}

/// Take one step towards the value: what the store answers says what comes next.
pub fn take_step<S: SecretStore>(
    store: &mut S,
    requester: Option<&[ProcessInfo]>,
    key: &str,
    step: GetStep,
) -> (r: GetStep)
    requires
        get::pending(step),
    ensures
        get::steps_left(r) < get::steps_left(step),
        r matches GetStep::Reply(resp) ==> resp is Failure,
        match step {
            GetStep::ReadLive => exists|m: &mut S, read: Result<Option<&[u8]>, ()>|
                *m == *old(store) && *final(m) == *final(store) && #[trigger] call_ensures(
                    S::get,
                    (m, key),
                    read,
                ) && get::is_live_read(r, holds_value(read)),
            GetStep::Locate => exists|m: &mut S, state: Option<EntryState>, defined: bool|
                *m == *old(store) && *final(m) == *final(store) && #[trigger] call_ensures(
                    S::state_of,
                    (m, key),
                    state,
                ) && #[trigger] call_ensures(S::is_defined, (&*final(store), key), defined)
                    && get::is_located(r, state, defined),
            GetStep::Extend => exists|m: &mut S, outcome: ExtendOutcome|
                *m == *old(store) && *final(m) == *final(store) && #[trigger] call_ensures(
                    S::extend,
                    (m, key, requester),
                    outcome,
                ) && get::is_extended(r, outcome),
            GetStep::Regenerate => exists|m: &mut S, outcome: RegenerateOutcome|
                *m == *old(store) && *final(m) == *final(store) && #[trigger] call_ensures(
                    S::regenerate,
                    (m, key, requester),
                    outcome,
                ) && get::is_regenerated(r, outcome),
            GetStep::Generate => exists|m: &mut S, outcome: RegenerateDefOutcome|
                *m == *old(store) && *final(m) == *final(store) && #[trigger] call_ensures(
                    S::generate,
                    (m, key, requester),
                    outcome,
                ) && get::is_generated(r, outcome),
            GetStep::Reread(renewal) => exists|m: &mut S, read: Result<Option<&[u8]>, ()>|
                *m == *old(store) && *final(m) == *final(store) && #[trigger] call_ensures(
                    S::get,
                    (m, key),
                    read,
                ) && get::is_reread(r, renewal, holds_value(read)),
            GetStep::Finish => false,
            GetStep::Reply(_) => false,
        },
{
    match step {
        GetStep::ReadLive => get::live_read(can_read(store, key)),
        GetStep::Locate => {
            let state = store.state_of(key);
            get::located(state, store.is_defined(key))
        },
        GetStep::Extend => get::extended(store.extend(key, requester)),
        GetStep::Regenerate => get::regenerated(store.regenerate(key, requester)),
        GetStep::Generate => get::lazy_generated(store.generate(key, requester)),
        GetStep::Reread(renewal) => get::reread(renewal, can_read(store, key)),
        GetStep::Finish => unreached(),
        GetStep::Reply(_) => unreached(),
    }
}

/// `steps` lead from the first reading of the value to `last`, one step for each
/// pair of neighbouring `states` of the store, each closer to the reply.
pub open spec fn is_way<S>(steps: Seq<GetStep>, states: Seq<S>, last: GetStep) -> bool {
    steps.len() == states.len() && steps.len() > 0 && steps[0] is ReadLive && steps.last() == last
        && get::come_closer(steps)
}

/// Renew the value, where that is needed, until it can be read or cannot be had.
/// What is done with the value plays no part here.
pub fn reach_value<S: SecretStore>(
    store: &mut S,
    requester: Option<&[ProcessInfo]>,
    key: &str,
) -> (r: GetStep)
    ensures
        !get::pending(r),
        r matches GetStep::Reply(resp) ==> resp is Failure,
        exists|steps: Seq<GetStep>, states: Seq<S>| #[trigger]
            is_way(steps, states, r) && chain::leads(
                states,
                *old(store),
                *final(store),
                (steps.len() - 1) as nat,
            ) && forall|i: int| #[trigger]
                chain::is_step(states, i) ==> (exists|m: &mut S|
                    *m == states[i] && *final(m) == states[i + 1] && #[trigger] call_ensures(
                        take_step::<S>,
                        (m, requester, key, steps[i]),
                        steps[i + 1],
                    )),
{
    let mut step = GetStep::ReadLive;
    let ghost mut steps: Seq<GetStep> = seq![step];
    let ghost mut states: Seq<S> = seq![*store];
    loop
        invariant
            is_way(steps, states, step),
            chain::leads(states, *old(store), *store, (steps.len() - 1) as nat),
            forall|i: int| #[trigger]
                chain::is_step(states, i) ==> (exists|m: &mut S|
                    *m == states[i] && *final(m) == states[i + 1] && #[trigger] call_ensures(
                        take_step::<S>,
                        (m, requester, key, steps[i]),
                        steps[i + 1],
                    )),
            step matches GetStep::Reply(resp) ==> resp is Failure,
        decreases get::steps_left(step),
    {
        match step {
            GetStep::Finish => {
                return GetStep::Finish;
            },
            GetStep::Reply(resp) => {
                return GetStep::Reply(resp);
            },
            pending => {
                let ghost former = steps;
                let ghost before = states;
                let ghost taken = pending;
                step = take_step(store, requester, key, pending);
                proof {
                    steps = former.push(step);
                    states = before.push(*store);
                    assert forall|i: int| #[trigger] chain::is_step(states, i) implies (exists|
                        m: &mut S,
                    |
                        *m == states[i] && *final(m) == states[i + 1] && #[trigger] call_ensures(
                            take_step::<S>,
                            (m, requester, key, steps[i]),
                            steps[i + 1],
                        )) by {
                        assert(states[i] == before[i] && steps[i] == former[i]);
                        if chain::is_step(before, i) {
                            assert(states[i + 1] == before[i + 1]);
                            assert(steps[i + 1] == former[i + 1]);
                        } else {
                            assert(steps[i] == taken && steps[i + 1] == step);
                            assert(states[i + 1] == *store);
                        }
                    }
                }
            },
        }
    }
}

/// Read an entry for a requester that nothing keeps out: reach its value, and
/// shape the reply.
pub fn read_entry<S: SecretStore>(
    store: &mut S,
    requester: Option<&[ProcessInfo]>,
    key: &str,
    dry_run: bool,
) -> (r: Response)
    ensures
        get_reply_fits(r, dry_run),
        exists|m: &mut S, reached: GetStep|
            *m == *old(store) && #[trigger] call_ensures(
                reach_value::<S>,
                (m, requester, key),
                reached,
            ) && match reached {
                GetStep::Reply(resp) => r == resp && *final(store) == *final(m),
                _ => reached is Finish && exists|n: &mut S|
                    *n == *final(m) && *final(n) == *final(store) && #[trigger] call_ensures(
                        finish_get::<S>,
                        (n, key, dry_run),
                        r,
                    ),
            },
{
    match reach_value(store, requester, key) {
        GetStep::Reply(resp) => resp,
        _ => finish_get(store, key, dry_run),
    }
}

/// Handle `kv.get`: the gates first, then the way to the value.
pub fn handle_get<S: SecretStore>(
    store: &mut S,
    ctx: &HandlerCtx,
    key: String,
    dry_run: bool,
) -> (r: Response)
    ensures
        get_reply_fits(r, dry_run),
        if handler::in_reserved_namespace(key@) {
            handler::is_reserved_read(r) && *final(store) == *old(store)
        } else if get::policy_refuses(
            policy_names(ctx.kv_process_policies@, key@),
            ctx.requester,
        ) {
            wire::is_error(r, ErrorKind::AuthFailed, "process not permitted to access this key"@)
                && *final(store) == *old(store)
        } else if ctx.guard_check_mode is AlreadyApproved {
            exists|m: &mut S, k: &str|
                *m == *old(store) && *final(m) == *final(store) && k@ == key@
                    && #[trigger] call_ensures(read_entry::<S>, (m, ctx.requester, k, dry_run), r)
        } else {
            exists|finding: GuardFinding| #[trigger]
                store::judges(
                    *old(store),
                    key@,
                    ctx.guard_chain,
                    ctx.guard_audit_token,
                    finding,
                ) && if get::guard_refuses(GuardCheckMode::Evaluate, finding) {
                    wire::is_error(r, ErrorKind::AuthFailed, get::guard_refusal(finding))
                        && *final(store) == *old(store)
                } else {
                    exists|m: &mut S, k: &str|
                        *m == *old(store) && *final(m) == *final(store) && k@ == key@
                            && #[trigger] call_ensures(
                            read_entry::<S>,
                            (m, ctx.requester, k, dry_run),
                            r,
                        )
                }
        },
{
    let allowed = policy_for(ctx.kv_process_policies, key.as_str());
    match get::check_read_gates(key.as_str(), allowed, ctx.requester) {
        Err(resp) => {
            return resp;
        },
        Ok(()) => {},
    }
    match ctx.guard_check_mode {
        GuardCheckMode::AlreadyApproved => {},
        GuardCheckMode::Evaluate => {
            let finding = store::judge(
                &*store,
                key.as_str(),
                ctx.guard_chain,
                ctx.guard_audit_token,
            );
            match get::check_guard(&finding) {
                Err(resp) => {
                    return resp;
                },
                Ok(()) => {},
            }
        },
    }
    read_entry(store, ctx.requester, key.as_str(), dry_run)
}

/// `r` is the status of this daemon, with the reports on the keys that
/// `snapshots` show.
pub open spec fn is_status(
    r: Response,
    ctx: HandlerCtx,
    snapshots: Seq<EntrySnapshot>,
    now_ns: u64,
) -> bool {
    r matches Response::Success(body) && (body.payload matches OkPayload::Status {
        pid,
        version,
        socket,
        entries,
        full_disk_access,
        vault,
    } && pid == ctx.pid && version@ == ctx.version@ && socket@ == ctx.socket@ && entries.deep_view()
        == entries::entry_views(snapshots, now_ns) && full_disk_access == ctx.full_disk_access
        && vault is None)
}

/// What is promised of the reply `r` to `req`, whatever the store answers;
/// `unchanged` says that the store is as it was.
pub open spec fn reply_fits(r: Response, req: Request, ctx: HandlerCtx, unchanged: bool) -> bool {
    match req {
        Request::Ping => wire::is_ok(r, OkPayload::Pong) && unchanged,
        Request::Status => unchanged && (r matches Response::Success(body) && body.payload is Status),
        Request::KvList => unchanged && (r matches Response::Success(body) && body.payload is List),
        Request::KvDel { .. } => r matches Response::Success(body) && body.payload is Deleted,
        Request::KvSet { key, guard_constraints, .. } => {
            let plan = guard_plan(guard_constraints@, ctx);
            &&& !writable(key@) || plan is Err ==> r is Failure && unchanged
            &&& is_arbitration_refusal(r) ==> unchanged
            &&& r is Success ==> is_write_ack(r, plan_labels(plan->Ok_0))
        },
        Request::KvClaim { key, expected_version, duration_secs } => {
            &&& !handler::is_protocol_key(key@) || !claim::valid_duration(duration_secs)
                ==> r is Failure && unchanged
            &&& is_arbitration_refusal(r) ==> unchanged
            &&& r is Success ==> (r matches Response::Success(body) && (body.payload matches
                OkPayload::Claimed { version, claim_expires_in_secs, .. } && version
                == expected_version && claim_expires_in_secs == duration_secs))
        },
        Request::KvUnclaim { key, .. } => {
            &&& !handler::is_protocol_key(key@) ==> handler::is_bad_key(r, key@) && unchanged
            &&& is_arbitration_refusal(r) ==> unchanged
            &&& r is Success ==> wire::is_ok(r, OkPayload::Unclaimed)
        },
        Request::KvDefine { key, .. } => {
            &&& !writable(key@) ==> r is Failure && unchanged
            &&& r is Success ==> wire::is_ok(r, OkPayload::Defined)
        },
        Request::KvGet { key, dry_run } => {
            let allowed = policy_names(ctx.kv_process_policies@, key@);
            &&& handler::in_reserved_namespace(key@) ==> handler::is_reserved_read(r) && unchanged
            &&& !handler::in_reserved_namespace(key@) && get::policy_refuses(
                allowed,
                ctx.requester,
            ) ==> wire::is_error(
                r,
                ErrorKind::AuthFailed,
                "process not permitted to access this key"@,
            ) && unchanged
            &&& get_reply_fits(r, dry_run)
        },
        Request::KvPin { duration_secs, .. } => r is Success ==> wire::is_ok(
            r,
            (OkPayload::Pinned { pin_remaining_secs: duration_secs }),
        ),
        Request::KvUnpin { .. } => r is Success ==> wire::is_ok(
            r,
            (OkPayload::Unpinned { unpinned: true }),
        ),
        Request::RestartGraceful => wire::is_error(
            r,
            ErrorKind::Internal,
            "restart_graceful must be dispatched by run_request"@,
        ) && unchanged,
    }
}

/// Handle one request against the store: the response to send back.
pub fn handle_request<S: SecretStore>(store: &mut S, ctx: &HandlerCtx, req: Request) -> (r:
    Response)
    ensures
        reply_fits(r, req, *ctx, *final(store) == *old(store)),
        match req {
            Request::Ping => true,
            Request::RestartGraceful => true,
            Request::Status => exists|snapshots: Vec<EntrySnapshot>, now_ns: u64| #[trigger]
                store::shows(*old(store), snapshots, now_ns) && is_status(
                    r,
                    *ctx,
                    snapshots@,
                    now_ns,
                ),
            Request::KvList => exists|snapshots: Vec<EntrySnapshot>, now_ns: u64| #[trigger]
                store::shows(*old(store), snapshots, now_ns) && entries::is_listing(
                    r,
                    snapshots@,
                    now_ns,
                ),
            Request::KvDel { key, with_define } => exists|
                m: &mut S,
                k: &str,
                removed: Option<bool>,
            |
                *m == *old(store) && *final(m) == *final(store) && k@ == key@
                    && #[trigger] call_ensures(S::delete, (m, k, with_define), removed)
                    && wire::is_ok(r, (OkPayload::Deleted { deleted: removed == Some(true) })),
            Request::KvSet {
                key,
                source,
                soft_ttl_secs,
                hard_ttl_secs,
                guard_constraints,
                expected_version,
                claim_token,
                ..
            } => exists|m: &mut S|
                *m == *old(store) && *final(m) == *final(store) && #[trigger] call_ensures(
                    handle_set::<S>,
                    (
                        m,
                        ctx,
                        key,
                        source,
                        soft_ttl_secs,
                        hard_ttl_secs,
                        guard_constraints,
                        expected_version,
                        claim_token,
                    ),
                    r,
                ),
            Request::KvClaim { key, expected_version, duration_secs } => exists|m: &mut S|
                *m == *old(store) && *final(m) == *final(store) && #[trigger] call_ensures(
                    handle_claim::<S>,
                    (m, key, expected_version, duration_secs),
                    r,
                ),
            Request::KvUnclaim { key, claim_token } => exists|m: &mut S|
                *m == *old(store) && *final(m) == *final(store) && #[trigger] call_ensures(
                    handle_unclaim::<S>,
                    (m, key, claim_token),
                    r,
                ),
            Request::KvDefine { key, source, soft_ttl_secs, hard_ttl_secs, meta } => exists|
                m: &mut S,
            |
                *m == *old(store) && *final(m) == *final(store) && #[trigger] call_ensures(
                    handle_define::<S>,
                    (m, key, source, soft_ttl_secs, hard_ttl_secs, meta),
                    r,
                ),
            Request::KvGet { key, dry_run } => exists|m: &mut S|
                *m == *old(store) && *final(m) == *final(store) && #[trigger] call_ensures(
                    handle_get::<S>,
                    (m, ctx, key, dry_run),
                    r,
                ),
            Request::KvPin { key, duration_secs } => exists|
                m: &mut S,
                k: &str,
                outcome: PinOutcome,
            |
                *m == *old(store) && *final(m) == *final(store) && k@ == key@
                    && #[trigger] call_ensures(
                    S::pin,
                    (m, k, duration_secs, ctx.requester),
                    outcome,
                ) && handler::is_pin_reply(r, outcome, duration_secs),
            Request::KvUnpin { key } => exists|m: &mut S, k: &str, found: Option<bool>|
                *m == *old(store) && *final(m) == *final(store) && k@ == key@
                    && #[trigger] call_ensures(S::unpin, (m, k), found) && handler::is_unpin_reply(
                    r,
                    found,
                ),
        },
        wire::carries_value(r) && ctx.guard_check_mode is Evaluate ==> exists|
            finding: GuardFinding,
        | #[trigger]
            store::judges(
                *old(store),
                req->KvGet_key@,
                ctx.guard_chain,
                ctx.guard_audit_token,
                finding,
            ) && !get::guard_refuses(GuardCheckMode::Evaluate, finding),
{
    match req {
        Request::Ping => Response::pong(),
        Request::Status => {
            let snapshots = store.snapshots();
            let now_ns: u64 = store.now_ns();
            assert(store::shows(*old(store), snapshots, now_ns));
            entries::handle_status(
                snapshots.as_slice(),
                now_ns,
                ctx.pid,
                ctx.version.to_owned(),
                ctx.socket.to_owned(),
                ctx.full_disk_access,
            )
        },
        Request::KvList => {
            let snapshots = store.snapshots();
            let now_ns: u64 = store.now_ns();
            assert(store::shows(*old(store), snapshots, now_ns));
            entries::handle_list(snapshots.as_slice(), now_ns)
        },
        Request::KvDel { key, with_define } => handler::deleted_reply(
            store.delete(key.as_str(), with_define),
        ),
        Request::KvSet {
            key,
            source,
            soft_ttl_secs,
            hard_ttl_secs,
            guard_constraints,
            expected_version,
            claim_token,
            ..
        } => handle_set(
            store,
            ctx,
            key,
            source,
            soft_ttl_secs,
            hard_ttl_secs,
            guard_constraints,
            expected_version,
            claim_token,
        ),
        Request::KvClaim { key, expected_version, duration_secs } => handle_claim(
            store,
            key,
            expected_version,
            duration_secs,
        ),
        Request::KvUnclaim { key, claim_token } => handle_unclaim(store, key, claim_token),
        Request::KvDefine { key, source, soft_ttl_secs, hard_ttl_secs, meta } => handle_define(
            store,
            key,
            source,
            soft_ttl_secs,
            hard_ttl_secs,
            meta,
        ),
        Request::KvGet { key, dry_run } => handle_get(store, ctx, key, dry_run),
        Request::KvPin { key, duration_secs } => handler::pinned_reply(
            store.pin(key.as_str(), duration_secs, ctx.requester),
            duration_secs,
        ),
        Request::KvUnpin { key } => handler::unpinned_reply(store.unpin(key.as_str())),
        Request::RestartGraceful => Response::error(
            ErrorKind::Internal,
            "restart_graceful must be dispatched by run_request",
        ),
    }
}

/// A value leaves the handler in one way only: in the reply to a get that reveals
/// it, on a key outside the reserved namespace, to a requester that the key's
/// process policy lets through and, unless the user approved already, the entry's
/// guard too.
pub proof fn values_leave_only_by_get<S: SecretStore>(store: S, ctx: &HandlerCtx, req: Request)
    ensures
        forall|m: &mut S, r: Response|
            *m == store && wire::carries_value(r) && #[trigger] call_ensures(
                handle_request::<S>,
                (m, ctx, req),
                r,
            ) ==> (req matches Request::KvGet { key, dry_run } && !dry_run
                && !handler::in_reserved_namespace(key@) && !get::policy_refuses(
                policy_names(ctx.kv_process_policies@, key@),
                ctx.requester,
            ) && (ctx.guard_check_mode is Evaluate ==> exists|finding: GuardFinding| #[trigger]
                store::judges(store, key@, ctx.guard_chain, ctx.guard_audit_token, finding)
                    && !get::guard_refuses(GuardCheckMode::Evaluate, finding))),
{
}

/// A get that a gate keeps out fails and leaves the store as it is, whether it
/// reveals the value or only verifies it: no source runs and nobody is asked.
pub proof fn a_refused_get_touches_nothing<S: SecretStore>(
    store: S,
    ctx: &HandlerCtx,
    key: String,
    dry_run: bool,
)
    requires
        handler::in_reserved_namespace(key@) || get::policy_refuses(
            policy_names(ctx.kv_process_policies@, key@),
            ctx.requester,
        ) || (ctx.guard_check_mode is Evaluate && forall|finding: GuardFinding| #[trigger]
            store::judges(store, key@, ctx.guard_chain, ctx.guard_audit_token, finding)
                ==> get::guard_refuses(GuardCheckMode::Evaluate, finding)),
    ensures
        forall|m: &mut S, r: Response|
            *m == store && #[trigger] call_ensures(handle_get::<S>, (m, ctx, key, dry_run), r)
                ==> r is Failure && *final(m) == store,
{
}

/// What a declared constraint is called in an acknowledgement.
pub open spec fn declared_kind(declared: GuardConstraintWire) -> Seq<char> {
    match declared {
        GuardConstraintWire::SameUser => "same-user"@,
        GuardConstraintWire::SameShell => "same-shell"@,
        GuardConstraintWire::SameAncestor { .. } => "same-ancestor"@,
        GuardConstraintWire::Command { .. } => "command"@,
    }
}

/// The acknowledgement of a write names every constraint that the write
/// declared, in order, and no other.
pub proof fn acknowledged_guards_are_as_declared(
    r: Response,
    req: Request,
    ctx: HandlerCtx,
    unchanged: bool,
)
    requires
        reply_fits(r, req, ctx, unchanged),
        req is KvSet,
        req->KvSet_guard_constraints@.len() > 0,
        r is Success,
    ensures
        is_write_ack(
            r,
            req->KvSet_guard_constraints@.map_values(
                |declared: GuardConstraintWire| declared_kind(declared),
            ),
        ),
{
    let declared = req->KvSet_guard_constraints@;
    let plan = guard_plan(declared, ctx);
    guard::record_keeps_every_declaration(
        declared,
        ctx.guard_audit_token,
        guard::known_chain(ctx.guard_chain),
        ctx.kv_policy.default_require_same_user,
        ctx.kv_policy.shell_names.deep_view(),
    );
    let constraints = plan->Ok_0->0.constraints;
    let kinds = declared.map_values(|d: GuardConstraintWire| declared_kind(d));
    assert forall|i: int| 0 <= i < kinds.len() implies kinds[i] == guard::kind_label(
        constraints[i],
    ) by {
        assert(guard::planned_constraint(
            declared[i],
            guard::known_chain(ctx.guard_chain),
            ctx.kv_policy.shell_names.deep_view(),
        ) == Ok::<guard::ConstraintView, Seq<char>>(constraints[i]));
    }
    assert(kinds =~= plan_labels(plan->Ok_0));
}

/// A write that expects another version than the store tells is refused with the
/// version that there is, and changes nothing, whatever else it holds.
pub proof fn a_refused_compare_and_swap_changes_nothing<S: SecretStore>(
    store: S,
    ctx: &HandlerCtx,
    req: Request,
)
    requires
        req is KvSet,
        req->KvSet_expected_version is Some,
        forall|version: u64| #[trigger]
            store::tells_version(store, req->KvSet_key@, version) ==> version
                != req->KvSet_expected_version->0,
    ensures
        forall|m: &mut S, r: Response|
            *m == store && #[trigger] call_ensures(handle_request::<S>, (m, ctx, req), r)
                ==> *final(m) == store && exists|version: u64| #[trigger]
                store::tells_version(store, req->KvSet_key@, version) && wire::is_cas_mismatch(
                    r,
                    version,
                ),
{
}

/// What a get gives out of an otp-typed key is the code that its seed and its
/// parameters yield at that time, in base64.
pub proof fn an_otp_key_gives_the_code_of_its_seed<S: SecretStore>(
    r: Response,
    meta: Option<ValueMeta>,
    read: Result<Option<&[u8]>, ()>,
    now_ms: u64,
)
    requires
        declares_otp(meta),
        gives_out::<S>(r, false, meta, read, now_ms),
        wire::carries_value(r),
    ensures
        read matches Ok(Some(seed)) && exists|code: String, bytes: &[u8], text: String|
            otp_type::is_derived(
                Ok(code),
                seed@,
                meta->0@.params,
                now_ms / 1000,
                S::resolve_seed,
                S::totp,
            ) && #[trigger] call_ensures(S::encode_value, (bytes,), text) && bytes@
                == #[trigger] vstd::utf8::encode_utf8(code@) && wire::is_ok(
                r,
                (OkPayload::Get { value_b64: text }),
            ),
{
}

/// What the store answers, where asking does not change it, follows from the
/// store and the question alone; so does what becomes of a seed.
pub open spec fn answers_are_settled<S: SecretStore>() -> bool {
    &&& forall|s: &S, k: &str, l: &str, a: Option<ValueMeta>, b: Option<ValueMeta>|
        k@ == l@ && #[trigger] call_ensures(S::meta_of, (s, k), a) && #[trigger] call_ensures(
            S::meta_of,
            (s, l),
            b,
        ) ==> a == b
    &&& forall|s: &S, k: &str, l: &str, a: bool, b: bool|
        k@ == l@ && #[trigger] call_ensures(S::is_defined, (s, k), a) && #[trigger] call_ensures(
            S::is_defined,
            (s, l),
            b,
        ) ==> a == b
    &&& forall|s: &S, a: u64, b: u64| #[trigger]
        call_ensures(S::now_epoch_ms, (s,), a) && #[trigger] call_ensures(S::now_epoch_ms, (s,), b)
            ==> a == b
    &&& forall|s: &S, k: &str, l: &str, a: bool, b: bool|
        k@ == l@ && #[trigger] call_ensures(S::is_guarded, (s, k), a) && #[trigger] call_ensures(
            S::is_guarded,
            (s, l),
            b,
        ) ==> a == b
    &&& forall|
        s: &S,
        k: &str,
        l: &str,
        chain: &[GetterProcess],
        token: Option<GetterAuditToken>,
        a: Result<Vec<String>, String>,
        b: Result<Vec<String>, String>,
    |
        k@ == l@ && #[trigger] call_ensures(S::evaluate_guard, (s, k, chain, token), a)
            && #[trigger] call_ensures(S::evaluate_guard, (s, l, chain, token), b) ==> a == b
    &&& forall|
        t: &str,
        u: &str,
        o: OtpOverrides,
        a: Result<(Vec<u8>, S::OtpParams), String>,
        b: Result<(Vec<u8>, S::OtpParams), String>,
    |
        t.spec_bytes() == u.spec_bytes() && #[trigger] call_ensures(S::resolve_seed, (t, o), a)
            && #[trigger] call_ensures(S::resolve_seed, (u, o), b) ==> a == b
    &&& forall|
        k: &[u8],
        l: &[u8],
        n: u64,
        p: &S::OtpParams,
        a: Result<String, String>,
        b: Result<String, String>,
    |
        k@ == l@ && #[trigger] call_ensures(S::totp, (k, n, p), a) && #[trigger] call_ensures(
            S::totp,
            (l, n, p),
            b,
        ) ==> a == b
}

/// Both fail, in the same words.
pub open spec fn same_failure(a: Response, b: Response) -> bool {
    a matches Response::Failure(x) && b matches Response::Failure(y) && x.error.kind
        == y.error.kind && x.error.message@ == y.error.message@ && x.error.current_version
        == y.error.current_version && x.error.claim_expires_in_secs == y.error.claim_expires_in_secs
}

/// The two steps are the same, or end the request in the same failure.
pub open spec fn same_step(a: GetStep, b: GetStep) -> bool {
    match (a, b) {
        (GetStep::Reply(x), GetStep::Reply(y)) => same_failure(x, y),
        _ => a == b,
    }
}

/// `verified` is what a dry run is to say where the reveal says `revealed`: the
/// same failure, or that the value can be had, without the value.
pub open spec fn foretells(verified: Response, revealed: Response) -> bool {
    same_failure(verified, revealed) || (wire::carries_value(revealed) && wire::is_verified(
        verified,
        "active"@,
    ))
}

/// A step towards the value is settled where what the store answers is.
proof fn steps_are_settled<S: SecretStore>(requester: Option<&[ProcessInfo]>)
    requires
        answers_are_settled::<S>(),
        forall|m: &mut S, n: &mut S, k: &str, l: &str, a: Result<Option<&[u8]>, ()>, b: Result<Option<&[u8]>, ()>|
            *m == *n && k@ == l@ && #[trigger] call_ensures(S::get, (m, k), a)
                && #[trigger] call_ensures(S::get, (n, l), b) ==> a == b && *final(m)
                == *final(n),
        forall|m: &mut S, n: &mut S, k: &str, l: &str, a: Option<EntryState>, b: Option<EntryState>|
            *m == *n && k@ == l@ && #[trigger] call_ensures(S::state_of, (m, k), a)
                && #[trigger] call_ensures(S::state_of, (n, l), b) ==> a == b && *final(m)
                == *final(n),
        forall|m: &mut S, n: &mut S, k: &str, l: &str, a: ExtendOutcome, b: ExtendOutcome|
            *m == *n && k@ == l@ && #[trigger] call_ensures(S::extend, (m, k, requester), a)
                && #[trigger] call_ensures(S::extend, (n, l, requester), b) ==> a == b && *final(m)
                == *final(n),
        forall|m: &mut S, n: &mut S, k: &str, l: &str, a: RegenerateOutcome, b: RegenerateOutcome|
            *m == *n && k@ == l@ && #[trigger] call_ensures(S::regenerate, (m, k, requester), a)
                && #[trigger] call_ensures(S::regenerate, (n, l, requester), b) ==> a == b && *final(m)
                == *final(n),
        forall|m: &mut S, n: &mut S, k: &str, l: &str, a: RegenerateDefOutcome, b: RegenerateDefOutcome|
            *m == *n && k@ == l@ && #[trigger] call_ensures(S::generate, (m, k, requester), a)
                && #[trigger] call_ensures(S::generate, (n, l, requester), b) ==> a == b && *final(m)
                == *final(n),
    ensures
        forall|m: &mut S, n: &mut S, k: &str, l: &str, step: GetStep, a: GetStep, b: GetStep|
            *m == *n && k@ == l@ && #[trigger] call_ensures(
                take_step::<S>,
                (m, requester, k, step),
                a,
            ) && #[trigger] call_ensures(take_step::<S>, (n, requester, l, step), b) ==> same_step(
                a,
                b,
            ) && *final(m) == *final(n),
{
}

/// Two ways from the same state of the store are the same, step by step.
proof fn ways_agree<S: SecretStore>(
    requester: Option<&[ProcessInfo]>,
    k: &str,
    steps: Seq<GetStep>,
    states: Seq<S>,
    l: &str,
    others: Seq<GetStep>,
    beside: Seq<S>,
    i: int,
)
    requires
        forall|m: &mut S, n: &mut S, k: &str, l: &str, step: GetStep, a: GetStep, b: GetStep|
            *m == *n && k@ == l@ && #[trigger] call_ensures(
                take_step::<S>,
                (m, requester, k, step),
                a,
            ) && #[trigger] call_ensures(take_step::<S>, (n, requester, l, step), b) ==> same_step(
                a,
                b,
            ) && *final(m) == *final(n),
        k@ == l@,
        0 <= i < steps.len() == states.len(),
        i < others.len() == beside.len(),
        steps[0] is ReadLive,
        others[0] is ReadLive,
        states[0] == beside[0],
        forall|j: int| #[trigger]
            chain::is_step(states, j) ==> (exists|p: &mut S|
                *p == states[j] && *final(p) == states[j + 1] && #[trigger] call_ensures(
                    take_step::<S>,
                    (p, requester, k, steps[j]),
                    steps[j + 1],
                )),
        forall|j: int| #[trigger]
            chain::is_step(beside, j) ==> (exists|p: &mut S|
                *p == beside[j] && *final(p) == beside[j + 1] && #[trigger] call_ensures(
                    take_step::<S>,
                    (p, requester, l, others[j]),
                    others[j + 1],
                )),
    ensures
        same_step(steps[i], others[i]),
        states[i] == beside[i],
    decreases i,
{
    if i > 0 {
        ways_agree(requester, k, steps, states, l, others, beside, i - 1);
        assert(chain::is_step(states, i - 1));
        assert(chain::is_step(beside, i - 1));
        assert(states[i - 1 + 1] == states[i] && beside[i - 1 + 1] == beside[i]);
        assert(steps[i - 1 + 1] == steps[i] && others[i - 1 + 1] == others[i]);
    }
}

/// The way to the value is settled where each step is.
proof fn ways_are_settled<S: SecretStore>(requester: Option<&[ProcessInfo]>)
    requires
        forall|m: &mut S, n: &mut S, k: &str, l: &str, step: GetStep, a: GetStep, b: GetStep|
            *m == *n && k@ == l@ && #[trigger] call_ensures(
                take_step::<S>,
                (m, requester, k, step),
                a,
            ) && #[trigger] call_ensures(take_step::<S>, (n, requester, l, step), b) ==> same_step(
                a,
                b,
            ) && *final(m) == *final(n),
    ensures
        forall|m: &mut S, n: &mut S, k: &str, l: &str, a: GetStep, b: GetStep|
            *m == *n && k@ == l@ && #[trigger] call_ensures(
                reach_value::<S>,
                (m, requester, k),
                a,
            ) && #[trigger] call_ensures(reach_value::<S>, (n, requester, l), b) ==> same_step(a, b)
                && *final(m) == *final(n),
{
    assert forall|m: &mut S, n: &mut S, k: &str, l: &str, a: GetStep, b: GetStep|
        *m == *n && k@ == l@ && #[trigger] call_ensures(
            reach_value::<S>,
            (m, requester, k),
            a,
        ) && #[trigger] call_ensures(reach_value::<S>, (n, requester, l), b) implies same_step(
        a,
        b,
    ) && *final(m) == *final(n) by {
        let (steps, states) = choose|steps: Seq<GetStep>, states: Seq<S>| #[trigger]
            is_way(steps, states, a) && chain::leads(
                states,
                *m,
                *final(m),
                (steps.len() - 1) as nat,
            ) && forall|j: int| #[trigger]
                chain::is_step(states, j) ==> (exists|p: &mut S|
                    *p == states[j] && *final(p) == states[j + 1] && #[trigger] call_ensures(
                        take_step::<S>,
                        (p, requester, k, steps[j]),
                        steps[j + 1],
                    ));
        let (others, beside) = choose|steps: Seq<GetStep>, states: Seq<S>| #[trigger]
            is_way(steps, states, b) && chain::leads(
                states,
                *n,
                *final(n),
                (steps.len() - 1) as nat,
            ) && forall|j: int| #[trigger]
                chain::is_step(states, j) ==> (exists|p: &mut S|
                    *p == states[j] && *final(p) == states[j + 1] && #[trigger] call_ensures(
                        take_step::<S>,
                        (p, requester, l, steps[j]),
                        steps[j + 1],
                    ));
        let last = steps.len() - 1;
        let end = others.len() - 1;
        let both = if last <= end {
            last
        } else {
            end
        };
        ways_agree(requester, k, steps, states, l, others, beside, both);
        if last < end {
            assert(chain::is_step(beside, both));
        }
        if end < last {
            assert(chain::is_step(states, both));
        }
    }
}

/// A dry run goes the whole way of the reveal, and says what it comes to. Of a
/// store that answers the same to the same question both ask the same: nothing
/// where the request is refused, otherwise the same renewals and one last
/// reading, and they leave the store in the same state. Where the reveal fails
/// the dry run fails in the same words; where it gives the value out the dry run
/// says that it can be had.
pub proof fn a_dry_run_goes_the_way_of_the_reveal<S: SecretStore>(
    store: S,
    ctx: &HandlerCtx,
    key: String,
)
    requires
        answers_are_settled::<S>(),
        forall|m: &mut S, n: &mut S, k: &str, l: &str, a: Result<Option<&[u8]>, ()>, b: Result<Option<&[u8]>, ()>|
            *m == *n && k@ == l@ && #[trigger] call_ensures(S::get, (m, k), a)
                && #[trigger] call_ensures(S::get, (n, l), b) ==> a == b && *final(m)
                == *final(n),
        forall|m: &mut S, n: &mut S, k: &str, l: &str, a: Option<EntryState>, b: Option<EntryState>|
            *m == *n && k@ == l@ && #[trigger] call_ensures(S::state_of, (m, k), a)
                && #[trigger] call_ensures(S::state_of, (n, l), b) ==> a == b && *final(m)
                == *final(n),
        forall|m: &mut S, n: &mut S, k: &str, l: &str, a: ExtendOutcome, b: ExtendOutcome|
            *m == *n && k@ == l@ && #[trigger] call_ensures(S::extend, (m, k, ctx.requester), a)
                && #[trigger] call_ensures(S::extend, (n, l, ctx.requester), b) ==> a == b && *final(m)
                == *final(n),
        forall|m: &mut S, n: &mut S, k: &str, l: &str, a: RegenerateOutcome, b: RegenerateOutcome|
            *m == *n && k@ == l@ && #[trigger] call_ensures(S::regenerate, (m, k, ctx.requester), a)
                && #[trigger] call_ensures(S::regenerate, (n, l, ctx.requester), b) ==> a == b && *final(m)
                == *final(n),
        forall|m: &mut S, n: &mut S, k: &str, l: &str, a: RegenerateDefOutcome, b: RegenerateDefOutcome|
            *m == *n && k@ == l@ && #[trigger] call_ensures(S::generate, (m, k, ctx.requester), a)
                && #[trigger] call_ensures(S::generate, (n, l, ctx.requester), b) ==> a == b && *final(m)
                == *final(n),
    ensures
        forall|m: &mut S, n: &mut S, k: &str, l: &str, a: GetStep, b: GetStep|
            *m == *n && k@ == l@ && #[trigger] call_ensures(
                reach_value::<S>,
                (m, ctx.requester, k),
                a,
            ) && #[trigger] call_ensures(reach_value::<S>, (n, ctx.requester, l), b) ==> same_step(
                a,
                b,
            ) && *final(m) == *final(n),
        forall|m: &mut S, n: &mut S, revealed: Response, verified: Response|
            *m == store && *n == store && #[trigger] call_ensures(
                handle_get::<S>,
                (m, ctx, key, false),
                revealed,
            ) && #[trigger] call_ensures(handle_get::<S>, (n, ctx, key, true), verified)
                ==> foretells(verified, revealed) && *final(n) == *final(m),
{
    steps_are_settled::<S>(ctx.requester);
    ways_are_settled::<S>(ctx.requester);
}

} // verus!
