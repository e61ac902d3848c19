//! Laws of reading a value: who is let in, and how an old value is renewed.

use vstd::prelude::*;
use vstd::string::StringSliceAdditionalSpecFns;

use crate::chain;
use crate::daemon::get;
use crate::daemon::get::{
    EntryState, ExtendOutcome, FinishStep, GetStep, GuardFinding, RegenerateDefOutcome,
    RegenerateOutcome, Renewal,
};
use crate::daemon::guard;
use crate::daemon::guard::ProcessInfo;
use crate::daemon::handler::ValueMeta;
use crate::daemon::otp_adapter;
use crate::daemon::otp_adapter::OtpError;
use crate::daemon::requests;
use crate::daemon::requests::{HandlerCtx, ProcessPolicy};
use crate::daemon::store;
use crate::daemon::store::SecretStore;
use crate::laws::replies;
use crate::otp_type;
use crate::wire::{ErrorKind, OkPayload, Response};

verus! {

/// The step ends the request with a failure of this kind.
pub open spec fn fails_as(step: GetStep, kind: ErrorKind) -> bool {
    step matches GetStep::Reply(Response::Failure(body)) && body.error.kind == kind
}

/// The step ends the request with a failure of this kind that says this.
pub open spec fn fails_saying(step: GetStep, kind: ErrorKind, message: Seq<char>) -> bool {
    step matches GetStep::Reply(Response::Failure(body)) && body.error.kind == kind
        && body.error.message@ == message
}

/// A value that can be read is read, and nothing is renewed.
pub proof fn live_values_are_read(readable: bool, r: GetStep)
    requires
        call_ensures(get::live_read, (readable,), r),
    ensures
        readable <==> r is Finish,
        !readable <==> r is Locate,
{
}

/// An entry past its soft time is confirmed by the user; one that is gone is
/// fetched anew, by its definition where it has one and else by its own source;
/// without either there is no such key.
pub proof fn how_a_value_is_renewed(state: Option<EntryState>, defined: bool, r: GetStep)
    requires
        call_ensures(get::located, (state, defined), r),
    ensures
        state == Some(EntryState::SoftExpired) <==> r is Extend,
        defined && (state is None || state == Some(EntryState::HardExpired)) <==> r is Generate,
        !defined && state == Some(EntryState::HardExpired) <==> r is Regenerate,
        !defined && state is None <==> fails_as(r, ErrorKind::NotFound),
        state == Some(EntryState::Active) <==> fails_as(r, ErrorKind::Internal),
{
}

/// A value is read again once it was renewed, and only then. What kept it from
/// being renewed is told by its kind.
pub proof fn renewed_values_are_read_again(
    outcome: ExtendOutcome,
    rerun: RegenerateOutcome,
    fetched: RegenerateDefOutcome,
    r: GetStep,
    s: GetStep,
    t: GetStep,
)
    requires
        call_ensures(get::extended, (outcome,), r),
        call_ensures(get::regenerated, (rerun,), s),
        call_ensures(get::lazy_generated, (fetched,), t),
    ensures
        outcome is Extended <==> r == GetStep::Reread(Renewal::Extended),
        outcome is NotFound <==> fails_as(r, ErrorKind::NotFound),
        outcome is HardExpired || outcome is AuthFailed <==> fails_as(r, ErrorKind::AuthFailed),
        outcome is CapMismatch <==> fails_as(r, ErrorKind::Internal),
        outcome matches ExtendOutcome::AuthFailed(e) ==> fails_saying(
            r,
            ErrorKind::AuthFailed,
            e@,
        ),
        rerun is Regenerated <==> s == GetStep::Reread(Renewal::Regenerated),
        rerun is NotFound <==> fails_as(s, ErrorKind::NotFound),
        rerun is NotRegenerable <==> fails_as(s, ErrorKind::NotRegenerable),
        rerun is AuthFailed <==> fails_as(s, ErrorKind::AuthFailed),
        rerun is RunFailed || rerun is Backoff <==> fails_as(s, ErrorKind::UpstreamFailed),
        rerun is NotHardExpired || rerun is CapMismatch <==> fails_as(s, ErrorKind::Internal),
        rerun matches RegenerateOutcome::RunFailed(e) ==> fails_saying(
            s,
            ErrorKind::UpstreamFailed,
            e@,
        ),
        rerun matches RegenerateOutcome::AuthFailed(e) ==> fails_saying(
            s,
            ErrorKind::AuthFailed,
            e@,
        ),
        fetched is Generated <==> t == GetStep::Reread(Renewal::Generated),
        fetched is ValueResident <==> t == GetStep::Reread(Renewal::Resident),
        fetched is Undefined <==> fails_as(t, ErrorKind::NotFound),
        fetched is AuthFailed <==> fails_as(t, ErrorKind::AuthFailed),
        fetched is RunFailed || fetched is Backoff <==> fails_as(t, ErrorKind::UpstreamFailed),
        fetched is CapMismatch <==> fails_as(t, ErrorKind::Internal),
        fetched matches RegenerateDefOutcome::RunFailed(e) ==> fails_saying(
            t,
            ErrorKind::UpstreamFailed,
            e@,
        ),
        fetched matches RegenerateDefOutcome::AuthFailed(e) ==> fails_saying(
            t,
            ErrorKind::AuthFailed,
            e@,
        ),
{
}

/// While an earlier failure holds off another run, the caller is told for how
/// long.
pub proof fn a_backoff_tells_how_long(
    retry_after: String,
    s: GetStep,
    t: GetStep,
)
    requires
        call_ensures(get::regenerated, (RegenerateOutcome::Backoff { retry_after },), s),
        call_ensures(get::lazy_generated, (RegenerateDefOutcome::Backoff { retry_after },), t),
    ensures
        fails_saying(
            s,
            ErrorKind::UpstreamFailed,
            "backoff active after previous fetch failure; retry after "@ + retry_after@ + "s"@,
        ),
        fails_saying(
            t,
            ErrorKind::UpstreamFailed,
            "backoff active after previous fetch failure; retry after "@ + retry_after@ + "s"@,
        ),
{
}

/// A value that was renewed and still cannot be read is gone.
pub proof fn renewed_values_may_be_gone(renewal: Renewal, readable: bool, r: GetStep)
    requires
        call_ensures(get::reread, (renewal, readable), r),
    ensures
        readable <==> r is Finish,
        !readable <==> fails_as(r, ErrorKind::Internal),
{
}

/// A key that yields codes never gives out its seed; a dry run gives out nothing.
pub proof fn how_a_get_ends(is_otp: bool, dry_run: bool, r: FinishStep)
    requires
        call_ensures(get::finish_get, (is_otp, dry_run), r),
    ensures
        is_otp <==> r == FinishStep::DeriveCode,
        !is_otp && dry_run <==> r == FinishStep::CheckValue,
        !is_otp && !dry_run <==> r == FinishStep::ReadValue,
{
}

/// The reply carries what was read exactly where the request reveals it.
pub proof fn replies_carry_what_was_read(
    dry_run: bool,
    code: Result<String, OtpError>,
    readable: bool,
    value: Option<String>,
    r: Response,
    s: Response,
    t: Response,
)
    requires
        call_ensures(get::finish_code, (dry_run, code), r),
        call_ensures(get::finish_check, (readable,), s),
        call_ensures(get::finish_value, (value,), t),
    ensures
        code is Ok <==> r is Success,
        code matches Ok(c) ==> (r matches Response::Success(body) && if dry_run {
            body.payload matches OkPayload::GetVerified { verified, .. } && verified
        } else {
            body.payload matches OkPayload::Get { value_b64 } && value_b64@ == c@
        }),
        code matches Err(OtpError::Derive(e)) ==> (r matches Response::Failure(body)
            && body.error.kind == ErrorKind::BadRequest && body.error.message@ == e@),
        code matches Err(e) ==> (!(e is Derive) ==> (r matches Response::Failure(body)
            && body.error.kind == ErrorKind::Internal)),
        readable <==> s is Success,
        s matches Response::Success(body) ==> (body.payload matches OkPayload::GetVerified {
            verified,
            ..
        } && verified),
        value is Some <==> t is Success,
        value matches Some(v) ==> (t matches Response::Success(body) && (body.payload matches
            OkPayload::Get { value_b64 } && value_b64@ == v@)),
{
}

/// The processes that a key is restricted to are those of the first policy that
/// names the key.
pub proof fn policies_by_key(policies: &[ProcessPolicy], key: &str, r: Option<&[String]>)
    requires
        call_ensures(requests::policy_for, (policies, key), r),
    ensures
        match r {
            Some(names) => exists|i: int|
                0 <= i < policies@.len() && (#[trigger] policies@[i]).key@ == key@
                    && policies@[i].allowed.deep_view() == names.deep_view() && forall|j: int|
                    0 <= j < i ==> (#[trigger] policies@[j]).key@ != key@,
            None => forall|j: int|
                0 <= j < policies@.len() ==> (#[trigger] policies@[j]).key@ != key@,
        },
{
    let i = first_policy(policies@, key@);
}

proof fn first_policy(policies: Seq<ProcessPolicy>, key: Seq<char>) -> (i: int)
    ensures
        match requests::policy_names(policies, key) {
            Some(names) => 0 <= i < policies.len() && policies[i].key@ == key
                && policies[i].allowed.deep_view() == names && forall|j: int|
                0 <= j < i ==> (#[trigger] policies[j]).key@ != key,
            None => forall|j: int|
                0 <= j < policies.len() ==> (#[trigger] policies[j]).key@ != key,
        },
    decreases policies.len(),
{
    if policies.len() == 0 || policies[0].key@ == key {
        0
    } else {
        let i = first_policy(policies.skip(1), key);
        assert forall|j: int|
            1 <= j < policies.len() && (requests::policy_names(policies, key) is None || j < i
                + 1) implies (#[trigger] policies[j]).key@ != key by {
            assert(policies.skip(1)[j - 1] == policies[j]);
        }
        i + 1
    }
}

/// A key that is not the daemon's own is read by anybody where no policy names
/// it, and else by those whom the policy lets in.
pub proof fn who_is_let_in(
    key: &str,
    allowed: Option<&[String]>,
    requester: Option<&[ProcessInfo]>,
    gate: bool,
    r: Result<(), Response>,
)
    requires
        allowed matches Some(names) ==> call_ensures(
            guard::chain_gate_passes,
            (requester, names),
            gate,
        ),
        call_ensures(get::check_read_gates, (key, allowed, requester), r),
    ensures
        r is Ok <==> !replies::is_own(key@) && (allowed is None || gate),
        r matches Err(resp) ==> (resp matches Response::Failure(body) && body.error.kind == (
        if replies::is_own(key@) {
            ErrorKind::BadRequest
        } else {
            ErrorKind::AuthFailed
        })),
{
    replies::keys_are_protocol_keys(key@);
}

/// A guard keeps out whom it denies, by the kind of what they do not meet, and
/// whom it cannot judge; an entry without a guard keeps nobody out.
pub proof fn whom_a_guard_keeps_out(finding: &GuardFinding, r: Result<(), Response>)
    requires
        call_ensures(get::check_guard, (finding,), r),
    ensures
        r is Ok <==> !finding.guarded || (finding.chain_known && finding.denied is None),
        r matches Err(resp) ==> (resp matches Response::Failure(body) && body.error.kind
            == ErrorKind::AuthFailed && (finding.chain_known ==> body.error.message@
            == "access denied by entry guard (kind: "@ + finding.denied->0@ + ")"@)),
{
}

/// A get on a key of the daemon's own, or by a requester that the key's policy
/// keeps out, fails and asks nothing of the store.
pub proof fn gates_come_before_the_store<S: SecretStore>(
    store: S,
    ctx: &HandlerCtx,
    key: String,
    dry_run: bool,
    k: &str,
    allowed: Option<&[String]>,
    gates: Result<(), Response>,
)
    requires
        k@ == key@,
        call_ensures(requests::policy_for, (ctx.kv_process_policies, k), allowed),
        call_ensures(get::check_read_gates, (k, allowed, ctx.requester), gates),
        gates is Err,
    ensures
        forall|m: &mut S, r: Response|
            *m == store && #[trigger] call_ensures(
                requests::handle_get::<S>,
                (m, ctx, key, dry_run),
                r,
            ) ==> r is Failure && *final(m) == store,
{
}

/// A get on a guarded entry fails and asks nothing of the store where the guard
/// denies the requester, or cannot judge them.
pub proof fn guards_come_before_the_store<S: SecretStore>(
    store: S,
    ctx: &HandlerCtx,
    key: String,
    dry_run: bool,
)
    requires
        ctx.guard_check_mode is Evaluate,
        forall|k: &str, guarded: bool|
            k@ == key@ && #[trigger] call_ensures(S::is_guarded, (&store, k), guarded) ==> guarded,
        ctx.guard_chain matches Some(chain) ==> forall|
            k: &str,
            passed: Result<Vec<String>, String>,
        |
            k@ == key@ && #[trigger] call_ensures(
                S::evaluate_guard,
                (&store, k, chain, ctx.guard_audit_token),
                passed,
            ) ==> passed is Err,
    ensures
        forall|m: &mut S, r: Response|
            *m == store && #[trigger] call_ensures(
                requests::handle_get::<S>,
                (m, ctx, key, dry_run),
                r,
            ) ==> r is Failure && *final(m) == store,
{
    assert forall|finding: GuardFinding| #[trigger]
        store::judges(
            store,
            key@,
            ctx.guard_chain,
            ctx.guard_audit_token,
            finding,
        ) implies finding.guarded && (!finding.chain_known || finding.denied is Some) by {}
}

proof fn live_values_are_reached<S: SecretStore>(
    store: S,
    requester: Option<&[ProcessInfo]>,
    key: &str,
    value: &[u8],
)
    requires
        forall|m: &mut S, read: Result<Option<&[u8]>, ()>|
            *m == store && #[trigger] call_ensures(S::get, (m, key), read) ==> read == Ok::<
                Option<&[u8]>,
                (),
            >(Some(value)) && *final(m) == store,
    ensures
        forall|m: &mut S, reached: GetStep|
            *m == store && #[trigger] call_ensures(
                requests::reach_value::<S>,
                (m, requester, key),
                reached,
            ) ==> reached is Finish && *final(m) == store,
{
    assert forall|m: &mut S, reached: GetStep|
        *m == store && #[trigger] call_ensures(
            requests::reach_value::<S>,
            (m, requester, key),
            reached,
        ) implies reached is Finish && *final(m) == store by {
        let (steps, states) = choose|steps: Seq<GetStep>, states: Seq<S>| #[trigger]
            requests::is_way(steps, states, reached) && chain::leads(
                states,
                *m,
                *final(m),
                (steps.len() - 1) as nat,
            ) && forall|i: int| #[trigger]
                chain::is_step(states, i) ==> (exists|p: &mut S|
                    *p == states[i] && *final(p) == states[i + 1] && #[trigger] call_ensures(
                        requests::take_step::<S>,
                        (p, requester, key, steps[i]),
                        steps[i + 1],
                    ));
        assert(steps.len() > 1);
        assert(chain::is_step(states, 0));
        assert(states[1] == store);
        assert(steps[1] is Finish);
        if steps.len() > 2 {
            assert(chain::is_step(states, 1));
        }
    }
}

/// A value that can be read on the first try is given out as it is, in base64,
/// and nothing is renewed.
pub proof fn live_values_are_given_out<S: SecretStore>(
    store: S,
    requester: Option<&[ProcessInfo]>,
    key: &str,
    value: &[u8],
)
    requires
        forall|m: &mut S, read: Result<Option<&[u8]>, ()>|
            *m == store && #[trigger] call_ensures(S::get, (m, key), read) ==> read == Ok::<
                Option<&[u8]>,
                (),
            >(Some(value)) && *final(m) == store,
        forall|meta: Option<ValueMeta>| #[trigger]
            call_ensures(S::meta_of, (&store, key), meta) ==> meta is None,
    ensures
        forall|m: &mut S, r: Response|
            *m == store && #[trigger] call_ensures(
                requests::read_entry::<S>,
                (m, requester, key, false),
                r,
            ) ==> *final(m) == store && exists|text: String| #[trigger]
                call_ensures(S::encode_value, (value,), text) && (r matches Response::Success(body)
                    && (body.payload matches OkPayload::Get { value_b64 } && value_b64@ == text@)),
        forall|m: &mut S, r: Response|
            *m == store && #[trigger] call_ensures(
                requests::read_entry::<S>,
                (m, requester, key, true),
                r,
            ) ==> *final(m) == store && (r matches Response::Success(body) && body.payload
                is GetVerified),
{
    live_values_are_reached(store, requester, key, value);
}

/// Each step towards a value asks the store for its own thing, of this key and
/// for this requester, and goes on by what the store answers.
pub proof fn steps_ask_the_store<S: SecretStore>(
    store: S,
    requester: Option<&[ProcessInfo]>,
    key: &str,
    step: GetStep,
)
    requires
        !(step is Finish) && !(step is Reply),
    ensures
        forall|m: &mut S, r: GetStep|
            *m == store && #[trigger] call_ensures(
                requests::take_step::<S>,
                (m, requester, key, step),
                r,
            ) ==> {
                &&& step is ReadLive || step is Reread ==> exists|
                    at: &mut S,
                    read: Result<Option<&[u8]>, ()>,
                |
                    *at == store && *final(at) == *final(m) && #[trigger] call_ensures(
                        S::get,
                        (at, key),
                        read,
                    ) && (r is Finish <==> read matches Ok(Some(_)))
                &&& step is Locate ==> exists|at: &mut S, state: Option<EntryState>|
                    *at == store && *final(at) == *final(m) && #[trigger] call_ensures(
                        S::state_of,
                        (at, key),
                        state,
                    ) && (r is Extend <==> state == Some(EntryState::SoftExpired)) && (r is Regenerate
                        ==> state == Some(EntryState::HardExpired)) && (r is Generate ==> state is None
                        || state == Some(EntryState::HardExpired))
                &&& step is Extend ==> exists|at: &mut S, outcome: ExtendOutcome|
                    *at == store && *final(at) == *final(m) && #[trigger] call_ensures(
                        S::extend,
                        (at, key, requester),
                        outcome,
                    ) && (r is Reread <==> outcome is Extended)
                &&& step is Regenerate ==> exists|at: &mut S, outcome: RegenerateOutcome|
                    *at == store && *final(at) == *final(m) && #[trigger] call_ensures(
                        S::regenerate,
                        (at, key, requester),
                        outcome,
                    ) && (r is Reread <==> outcome is Regenerated)
                &&& step is Generate ==> exists|at: &mut S, outcome: RegenerateDefOutcome|
                    *at == store && *final(at) == *final(m) && #[trigger] call_ensures(
                        S::generate,
                        (at, key, requester),
                        outcome,
                    ) && (r is Reread <==> outcome is Generated || outcome is ValueResident)
            },
{
}

/// A value past its soft time is not read where the user does not confirm it: the
/// get fails, be it a dry run or not.
pub proof fn unconfirmed_values_are_not_read<S: SecretStore>(
    store: S,
    requester: Option<&[ProcessInfo]>,
    key: &str,
    dry_run: bool,
)
    requires
        forall|m: &mut S, read: Result<Option<&[u8]>, ()>|
            *m == store && #[trigger] call_ensures(S::get, (m, key), read) ==> !(read matches Ok(
                Some(_),
            )) && *final(m) == store,
        forall|m: &mut S, state: Option<EntryState>|
            *m == store && #[trigger] call_ensures(S::state_of, (m, key), state) ==> state == Some(
                EntryState::SoftExpired,
            ) && *final(m) == store,
        forall|m: &mut S, outcome: ExtendOutcome|
            *m == store && #[trigger] call_ensures(S::extend, (m, key, requester), outcome)
                ==> outcome is AuthFailed,
    ensures
        forall|m: &mut S, r: Response|
            *m == store && #[trigger] call_ensures(
                requests::read_entry::<S>,
                (m, requester, key, dry_run),
                r,
            ) ==> (r matches Response::Failure(body) && body.error.kind == ErrorKind::AuthFailed),
{
    assert forall|m: &mut S, reached: GetStep|
        *m == store && #[trigger] call_ensures(
            requests::reach_value::<S>,
            (m, requester, key),
            reached,
        ) implies fails_as(reached, ErrorKind::AuthFailed) by {
        let (steps, states) = choose|steps: Seq<GetStep>, states: Seq<S>| #[trigger]
            requests::is_way(steps, states, reached) && chain::leads(
                states,
                *m,
                *final(m),
                (steps.len() - 1) as nat,
            ) && forall|i: int| #[trigger]
                chain::is_step(states, i) ==> (exists|p: &mut S|
                    *p == states[i] && *final(p) == states[i + 1] && #[trigger] call_ensures(
                        requests::take_step::<S>,
                        (p, requester, key, steps[i]),
                        steps[i + 1],
                    ));
        assert(steps.len() > 1);
        assert(chain::is_step(states, 0));
        assert(states[1] == store);
        assert(steps[1] is Locate);
        assert(steps.len() > 2);
        assert(chain::is_step(states, 1));
        assert(states[2] == store);
        assert(steps[2] is Extend);
        assert(steps.len() > 3);
        assert(chain::is_step(states, 2));
        assert(fails_as(steps[3], ErrorKind::AuthFailed));
        if steps.len() > 4 {
            assert(chain::is_step(states, 3));
        }
    }
}

/// A key that yields codes gives out the code of its seed at the second of the
/// wall clock, in base64, and never the seed.
pub proof fn codes_are_given_out<S: SecretStore>(store: S, key: &str)
    requires
        forall|meta: Option<ValueMeta>| #[trigger]
            call_ensures(S::meta_of, (&store, key), meta) ==> (meta matches Some(m)
                && m.type_label is Some && m.type_label->0@ == "otp"@),
    ensures
        forall|m: &mut S, r: Response|
            *m == store && r is Success && #[trigger] call_ensures(
                requests::finish_get::<S>,
                (m, key, false),
                r,
            ) ==> exists|
                now_ms: u64,
                k: &[u8],
                secs: u64,
                p: S::OtpParams,
                code: String,
                bytes: &[u8],
                text: String,
            | #[trigger]
                call_ensures(S::now_epoch_ms, (&store,), now_ms) && #[trigger] call_ensures(
                    S::totp,
                    (k, secs, &p),
                    Ok(code),
                ) && 1000 * secs <= now_ms < 1000 * (secs + 1) && #[trigger] call_ensures(
                    S::encode_value,
                    (bytes,),
                    text,
                ) && bytes@ == vstd::utf8::encode_utf8(code@) && (r matches Response::Success(body)
                    && (body.payload matches OkPayload::Get { value_b64 } && value_b64@ == text@)),
{
    assert forall|m: &mut S, r: Response|
        *m == store && r is Success && #[trigger] call_ensures(
            requests::finish_get::<S>,
            (m, key, false),
            r,
        ) implies exists|
        now_ms: u64,
        k: &[u8],
        secs: u64,
        p: S::OtpParams,
        code: String,
        bytes: &[u8],
        text: String,
    | #[trigger]
        call_ensures(S::now_epoch_ms, (&store,), now_ms) && #[trigger] call_ensures(
            S::totp,
            (k, secs, &p),
            Ok(code),
        ) && 1000 * secs <= now_ms < 1000 * (secs + 1) && #[trigger] call_ensures(
            S::encode_value,
            (bytes,),
            text,
        ) && bytes@ == vstd::utf8::encode_utf8(code@) && (r matches Response::Success(body) && (
        body.payload matches OkPayload::Get { value_b64 } && value_b64@ == text@)) by {
        let (meta, at, read, now_ms) = choose|
            meta: Option<ValueMeta>,
            at: &mut S,
            read: Result<Option<&[u8]>, ()>,
            now_ms: u64,
        |
            call_ensures(S::meta_of, (&store, key), meta) && (requests::declares_otp(meta)
                ==> call_ensures(S::now_epoch_ms, (&store,), now_ms)) && *at == store && *final(at)
                == *final(m) && #[trigger] call_ensures(S::get, (at, key), read)
                && #[trigger] requests::gives_out::<S>(r, false, meta, read, now_ms);
        assert(requests::declares_otp(meta));
        let secs = now_ms / 1000;
        let code = choose|code: Result<String, OtpError>| #[trigger]
            otp_adapter::is_code(code, meta, read, secs, S::resolve_seed, S::totp) && match code {
                Ok(c) => exists|bytes: &[u8], text: String| #[trigger]
                    call_ensures(S::encode_value, (bytes,), text) && bytes@
                        == vstd::utf8::encode_utf8(c@) && get::is_code_reply(r, false, Ok(text)),
                Err(e) => get::is_code_reply(r, false, Err(e)),
            };
        assert(code is Ok);
        let c = code->Ok_0;
        let (bytes, text) = choose|bytes: &[u8], text: String| #[trigger]
            call_ensures(S::encode_value, (bytes,), text) && bytes@ == vstd::utf8::encode_utf8(c@)
                && get::is_code_reply(r, false, Ok(text));
        let params = otp_adapter::params_of(meta);
        let o = otp_type::overrides(params)->Ok_0;
        let seed = read->Ok_0->0@;
        let (s, resolved) = choose|s: &str, resolved: Result<(Vec<u8>, S::OtpParams), String>| #[trigger]
            call_ensures(S::resolve_seed, (s, o), resolved) && s.spec_bytes() == seed
                && match resolved {
                Ok((found, p)) => exists|k: &[u8]| #[trigger]
                    call_ensures(S::totp, (k, secs, &p), Ok(c)) && k@ == found@,
                Err(e) => false,
            };
        assert(resolved is Ok);
        let (found, p) = resolved->Ok_0;
        let k = choose|k: &[u8]| #[trigger]
            call_ensures(S::totp, (k, secs, &p), Ok(c)) && k@ == found@;
        assert(call_ensures(S::totp, (k, secs, &p), Ok(c)));
        assert(call_ensures(S::now_epoch_ms, (&store,), now_ms));
    }
}

} // verus!
