//! Laws of how requests are run and how the daemon sets up its definitions.

use vstd::prelude::*;

use crate::chain;
use crate::config::{DefView, KvDefinition};
use crate::daemon::approval::ApprovalOutcome;
use crate::daemon::dispatch;
use crate::daemon::dispatch::{Begun, GuardedGetFirstPass, Host};
use crate::daemon::get::{GuardCheckMode, GuardFinding};
use crate::daemon::guard::{GetterAuditToken, GetterProcess};
use crate::daemon::handler;
use crate::daemon::handler::{DefineOutcome, ValueMeta};
use crate::daemon::requests;
use crate::daemon::requests::HandlerCtx;
use crate::daemon::server;
use crate::daemon::startup;
use crate::daemon::startup::{DefinitionFile, StartingStore};
use crate::daemon::store;
use crate::daemon::store::SecretStore;
use crate::defs;
use crate::defs::StoreKey;
use crate::laws::files;
use crate::laws::replies;
use crate::wire::{ErrorKind, OkPayload, Request, Response, SourceSpecWire};

verus! {

/// A key is found guarded where the store says so, and the guard is held against
/// the requester where their ancestry is known: what the store says of it is what
/// is found.
pub proof fn guards_are_judged_by_the_store<S: SecretStore>(
    store: &S,
    key: &str,
    chain: Option<&[GetterProcess]>,
    token: Option<GetterAuditToken>,
    r: GuardFinding,
)
    requires
        call_ensures(store::judge::<S>, (store, key, chain, token), r),
    ensures
        exists|k: &str| k@ == key@ && #[trigger] call_ensures(S::is_guarded, (store, k), r.guarded),
        r.chain_known <==> chain is Some,
        !r.guarded || chain is None ==> r.denied is None && r.passed@.len() == 0,
        r.guarded && chain is Some && r.denied is None ==> exists|k: &str|
            k@ == key@ && #[trigger] call_ensures(
                S::evaluate_guard,
                (store, k, chain->0, token),
                Ok(r.passed),
            ),
        r.guarded && chain is Some && r.denied is Some ==> exists|k: &str|
            k@ == key@ && #[trigger] call_ensures(
                S::evaluate_guard,
                (store, k, chain->0, token),
                Err(r.denied->0),
            ),
{
}

/// A restart and a ping leave the store alone; a ping is answered at once.
pub proof fn what_leaves_the_store_alone<S: SecretStore, H: Host<S>>(
    before: S,
    around: H,
    ctx: &HandlerCtx,
    req: Request,
)
    ensures
        forall|m: &mut S, h: &mut H, r: Response|
            *m == before && *h == around && #[trigger] call_ensures(
                dispatch::run_request::<S, H>,
                (m, ctx, req, h),
                r,
            ) ==> {
                &&& req is Ping || req is RestartGraceful ==> *final(m) == before
                &&& req is Ping ==> *final(h) == around && (r matches Response::Success(body)
                    && body.payload is Pong)
            },
{
}

/// The definitions are written down after each request that changed them, as the
/// store then holds them, and a failure to do so is reported; no other request
/// has them written down.
pub proof fn changed_definitions_are_written_down<S: SecretStore, H: Host<S>>(
    before: S,
    around: H,
    ctx: &HandlerCtx,
    req: Request,
)
    requires
        !(req is RestartGraceful),
    ensures
        forall|m: &mut S, h: &mut H, r: Response|
            *m == before && *h == around && r is Success && (req is KvDefine || (req matches
                Request::KvDel { with_define, .. } && with_define)) && #[trigger] call_ensures(
                dispatch::run_request::<S, H>,
                (m, ctx, req, h),
                r,
            ) ==> exists|w: &mut H, s: &S, persisted: Result<(), String>|
                *w == around && *final(w) == *final(h) && *s == *final(m) && persisted is Ok
                    && #[trigger] call_ensures(H::persist, (w, s), persisted),
        forall|m: &mut S, h: &mut H, r: Response|
            *m == before && *h == around && !(req is KvDefine || (req matches Request::KvDel {
                with_define,
                ..
            } && with_define)) && #[trigger] call_ensures(
                dispatch::run_request::<S, H>,
                (m, ctx, req, h),
                r,
            ) ==> *final(h) == around,
{
}

/// The user is asked about a guarded value only, one that the requester's guard
/// would let out, and nothing of it has been touched then.
pub proof fn the_user_is_asked_about_guarded_values<S: SecretStore, H: Host<S>>(
    before: S,
    around: H,
    ctx: &HandlerCtx,
    req: Request,
)
    ensures
        forall|m: &mut S, h: &mut H, begun: Begun|
            *m == before && *h == around && begun is Ask && #[trigger] call_ensures(
                dispatch::begin_request::<S, H>,
                (m, ctx, req, h),
                begun,
            ) ==> {
                &&& *final(m) == before && *final(h) == around
                &&& req matches Request::KvGet { key, dry_run } && !dry_run && key@
                    == begun->Ask_key@ && !replies::is_own(key@)
                &&& ctx.guard_chain is Some
                &&& exists|k: &str|
                    k@ == begun->Ask_key@ && #[trigger] call_ensures(
                        S::is_guarded,
                        (&before, k),
                        true,
                    )
                &&& exists|k: &str|
                    k@ == begun->Ask_key@ && #[trigger] call_ensures(
                        S::evaluate_guard,
                        (&before, k, ctx.guard_chain->0, ctx.guard_audit_token),
                        Ok(begun->Ask_passed),
                    )
            },
{
    if let Request::KvGet { key, .. } = req {
        replies::keys_are_protocol_keys(key@);
    }
}

/// Whoever meets the guard of a value, and is kept out by nothing else, is put to
/// the user; without a guard the user is not asked.
pub proof fn whoever_meets_the_guard_is_put_to_the_user<S: SecretStore, H: Host<S>>(
    before: S,
    ctx: &HandlerCtx,
    req: Request,
    key: &str,
)
    requires
        req matches Request::KvGet { key: k, dry_run } && !dry_run && k@ == key@,
        !replies::is_own(key@),
        forall|i: int| 0 <= i < ctx.kv_process_policies@.len() ==> (
        #[trigger] ctx.kv_process_policies@[i]).key@ != key@,
        ctx.guard_chain is Some,
        forall|k: &str, passed: Result<Vec<String>, String>|
            k@ == key@ && #[trigger] call_ensures(
                S::evaluate_guard,
                (&before, k, ctx.guard_chain->0, ctx.guard_audit_token),
                passed,
            ) ==> passed is Ok,
    ensures
        (forall|k: &str, guarded: bool|
            k@ == key@ && #[trigger] call_ensures(S::is_guarded, (&before, k), guarded) ==> guarded)
            ==> forall|m: &mut S, h: &mut H, begun: Begun|
            *m == before && #[trigger] call_ensures(
                dispatch::begin_request::<S, H>,
                (m, ctx, req, h),
                begun,
            ) ==> begun is Ask,
        (forall|k: &str, guarded: bool|
            k@ == key@ && #[trigger] call_ensures(S::is_guarded, (&before, k), guarded)
                ==> !guarded) ==> forall|m: &mut S, h: &mut H, begun: Begun|
            *m == before && #[trigger] call_ensures(
                dispatch::begin_request::<S, H>,
                (m, ctx, req, h),
                begun,
            ) ==> begun is Done,
{
    replies::keys_are_protocol_keys(key@);
    no_policy(ctx.kv_process_policies@, key@);
}

proof fn no_policy(policies: Seq<requests::ProcessPolicy>, key: Seq<char>)
    requires
        forall|i: int| 0 <= i < policies.len() ==> (#[trigger] policies[i]).key@ != key,
    ensures
        requests::policy_names(policies, key) is None,
    decreases policies.len(),
{
    if policies.len() > 0 {
        assert forall|i: int| 0 <= i < policies.skip(1).len() implies (
        #[trigger] policies.skip(1)[i]).key@ != key by {
            assert(policies.skip(1)[i] == policies[i + 1]);
        }
        no_policy(policies.skip(1), key);
    }
}

/// Without the user's yes nothing is revealed and nothing is touched; with it,
/// whoever no longer meets the guard is refused.
pub proof fn only_a_yes_reveals_a_guarded_value<S: SecretStore>(
    before: S,
    ctx: &HandlerCtx,
    key: &str,
    outcome: &ApprovalOutcome,
)
    ensures
        forall|m: &mut S, r: Response|
            *m == before && #[trigger] call_ensures(
                dispatch::finish_request::<S>,
                (m, ctx, key, outcome),
                r,
            ) ==> {
                &&& !(*outcome is Approved) ==> *final(m) == before && (r matches Response::Failure(
                    body,
                ) && body.error.kind == ErrorKind::AuthFailed)
                &&& replies::is_own(key@) ==> r is Failure
                &&& r matches Response::Success(body) ==> body.payload is Get
            },
        (forall|k: &str, guarded: bool|
            k@ == key@ && #[trigger] call_ensures(S::is_guarded, (&before, k), guarded) ==> guarded)
            && (ctx.guard_chain is None || forall|k: &str, passed: Result<Vec<String>, String>|
            k@ == key@ && #[trigger] call_ensures(
                S::evaluate_guard,
                (&before, k, ctx.guard_chain->0, ctx.guard_audit_token),
                passed,
            ) ==> passed is Err) ==> forall|m: &mut S, r: Response|
            *m == before && #[trigger] call_ensures(
                dispatch::finish_request::<S>,
                (m, ctx, key, outcome),
                r,
            ) ==> r is Failure && *final(m) == before,
{
    replies::keys_are_protocol_keys(key@);
}

/// A claim that is acknowledged as released has been cleared in the store, that
/// of the key alone; a refused release changes nothing.
pub proof fn released_claims_are_gone<S: SecretStore>(store: S, key: String, claim_token: String)
    ensures
        forall|m: &mut S, r: Response|
            *m == store && r is Success && #[trigger] call_ensures(
                requests::handle_unclaim::<S>,
                (m, key, claim_token),
                r,
            ) ==> exists|at: &mut S, k: &str|
                *at == store && *final(at) == *final(m) && k@ == key@ && #[trigger] call_ensures(
                    S::clear_claim,
                    (at, k),
                    true,
                ),
        forall|m: &mut S, r: Response|
            *m == store && (r matches Response::Failure(body) && body.error.kind
                == ErrorKind::ClaimTokenMismatch) && #[trigger] call_ensures(
                requests::handle_unclaim::<S>,
                (m, key, claim_token),
                r,
            ) ==> *final(m) == store,
{
}

/// A definition handed to the store: under its key, and as it is.
pub open spec fn handed_over(
    def: &KvDefinition,
    key: Seq<char>,
    k: &str,
    source: SourceSpecWire,
    meta: ValueMeta,
) -> bool {
    k@ == key && files::same_source(source, def.source) && meta.params@.len()
        == def.meta.params@.len() && (def.meta.type_label is Some ==> meta.type_label.deep_view()
        == def.meta.type_label.deep_view())
}

proof fn views_are_handed_over(
    def: &KvDefinition,
    k: &str,
    source: SourceSpecWire,
    meta: ValueMeta,
)
    requires
        k@ == defs::file_key(def@),
        source@ == def@.source,
        meta@ == handler::stored_meta(def@.meta),
    ensures
        handed_over(def, defs::file_key(def@), k, source, meta),
{
    files::sources_by_their_views(source, def.source);
    assert(meta@.params.len() == meta.params@.len());
    assert(def.meta@.params.len() == def.meta.params@.len());
}

/// A definition of the configuration about which nothing is said is in the
/// store; one whose times to live do not go together is not, and is told of.
pub proof fn registered_definitions_are_in_the_store<S: StartingStore>(
    store: S,
    entry: &KvDefinition,
    force_eager: &[String],
    already_loaded: &[String],
    context: &str,
    key: String,
)
    requires
        context@ == "default"@,
        call_ensures(KvDefinition::full_key, (entry, context), key),
    ensures
        forall|m: &mut S, note: Option<String>|
            *m == store && note is None && #[trigger] call_ensures(
                startup::register_one::<S>,
                (m, entry, force_eager, already_loaded),
                note,
            ) ==> exists|at: &mut S, k: &str, source: SourceSpecWire, meta: ValueMeta|
                *at == store && handed_over(entry, key@, k, source, meta)
                    && #[trigger] call_ensures(
                    S::define,
                    (at, k, source, entry.soft_ttl_secs, entry.hard_ttl_secs, meta),
                    DefineOutcome::Defined,
                ) && (!entry.preload && !force_eager.deep_view().contains(key@) ==> *final(m)
                    == *final(at)),
        (forall|ttl: Result<(), String>| #[trigger]
            call_ensures(S::check_ttl, (&store, entry.soft_ttl_secs, entry.hard_ttl_secs), ttl)
                ==> ttl is Err) ==> forall|m: &mut S, note: Option<String>|
            *m == store && #[trigger] call_ensures(
                startup::register_one::<S>,
                (m, entry, force_eager, already_loaded),
                note,
            ) ==> note is Some && *final(m) == store,
{
    assert forall|k: &str, source: SourceSpecWire, meta: ValueMeta|
        #[trigger] k@ == key@ && #[trigger] source@ == entry@.source && #[trigger] meta@
            == handler::stored_meta(entry@.meta) implies handed_over(
        entry,
        key@,
        k,
        source,
        meta,
    ) by {
        views_are_handed_over(entry, k, source, meta);
    }
}

/// A kept definition about which nothing is said is back in the store, unless
/// the configuration defines its key: then it is told of, and the store stays as
/// it is.
pub proof fn restored_definitions_are_in_the_store<S: StartingStore>(
    store: S,
    def: &KvDefinition,
    config_names: &[String],
    context: &str,
    key: String,
)
    requires
        context@ == "default"@,
        call_ensures(KvDefinition::full_key, (def, context), key),
    ensures
        forall|m: &mut S, note: Option<String>|
            *m == store && note is None && #[trigger] call_ensures(
                startup::restore_one::<S>,
                (m, def, config_names),
                note,
            ) ==> exists|
                at: &mut S,
                k: &str,
                source: SourceSpecWire,
                meta: ValueMeta,
                restored: Result<(), String>,
            |
                *at == store && *final(at) == *final(m) && handed_over(def, key@, k, source, meta)
                    && restored is Ok && #[trigger] call_ensures(
                    S::restore,
                    (at, k, source, def.soft_ttl_secs, def.hard_ttl_secs, meta),
                    restored,
                ),
        forall|m: &mut S, note: Option<String>, i: int|
            *m == store && 0 <= i < config_names@.len() && (#[trigger] config_names@[i])@ == key@
                && #[trigger] call_ensures(
                startup::restore_one::<S>,
                (m, def, config_names),
                note,
            ) ==> note is Some && *final(m) == store,
{
    assert forall|k: &str, source: SourceSpecWire, meta: ValueMeta|
        #[trigger] k@ == key@ && #[trigger] source@ == def@.source && #[trigger] meta@
            == handler::stored_meta(def@.meta) implies handed_over(
        def,
        key@,
        k,
        source,
        meta,
    ) by {
        views_are_handed_over(def, k, source, meta);
    }
    assert forall|i: int| 0 <= i < config_names@.len() && (#[trigger] config_names@[i])@
        == key@ implies config_names.deep_view().contains(key@) by {
        assert(config_names.deep_view()[i] == config_names@[i]@);
    }
}

/// What was said, in order.
proof fn notes_are_told(notes: Seq<Option<String>>)
    ensures
        startup::told(notes) == notes.filter(|n: Option<String>| n is Some).map_values(
            |n: Option<String>| n->0@,
        ),
    decreases notes.len(),
{
    let says = |n: Option<String>| n is Some;
    let text = |n: Option<String>| n->0@;
    if notes.len() == 0 {
        reveal(Seq::filter);
        assert(notes.filter(says).map_values(text) =~= Seq::<Seq<char>>::empty());
    } else {
        let before = notes.drop_last();
        notes_are_told(before);
        assert(notes =~= before.push(notes.last()));
        before.lemma_filter_push(notes.last(), says);
        if notes.last() is Some {
            assert(before.filter(says).push(notes.last()).map_values(text) =~= before.filter(
                says,
            ).map_values(text).push(notes.last()->0@));
        }
    }
}

/// The states before and after each of `n` calls, and what was said at each.
pub open spec fn line_up<S>(states: Seq<S>, notes: Seq<Option<String>>, n: nat) -> bool {
    states.len() == n + 1 && notes.len() == n
}

/// The states before and after each of `n` calls.
pub open spec fn one_more<S>(states: Seq<S>, n: nat) -> bool {
    states.len() == n + 1
}

/// `i` is one of the calls between `states`.
pub open spec fn is_turn<S>(states: Seq<S>, i: int) -> bool {
    0 <= i < states.len() - 1
}

/// Every definition of the configuration is registered, in order, each from the
/// state that the one before left, and every warning is told.
pub proof fn every_definition_is_registered<S: StartingStore>(
    store: S,
    entries: &[KvDefinition],
    force_eager: &[String],
    already_loaded: &[String],
)
    ensures
        forall|m: &mut S, warnings: Vec<String>|
            *m == store && #[trigger] call_ensures(
                startup::register_definitions::<S>,
                (m, entries, force_eager, already_loaded),
                warnings,
            ) ==> exists|states: Seq<S>, notes: Seq<Option<String>>| #[trigger]
                line_up(states, notes, entries@.len()) && states[0] == store && states.last()
                    == *final(m) && warnings.deep_view() == notes.filter(
                    |n: Option<String>| n is Some,
                ).map_values(|n: Option<String>| n->0@) && forall|i: int|
                    #[trigger] is_turn(states, i) ==> exists|at: &mut S|
                        *at == states[i] && *final(at) == states[i + 1]
                            && #[trigger] call_ensures(
                            startup::register_one::<S>,
                            (at, &entries@[i], force_eager, already_loaded),
                            notes[i],
                        ),
{
    assert forall|m: &mut S, warnings: Vec<String>|
        *m == store && #[trigger] call_ensures(
            startup::register_definitions::<S>,
            (m, entries, force_eager, already_loaded),
            warnings,
        ) implies exists|states: Seq<S>, notes: Seq<Option<String>>| #[trigger]
                line_up(states, notes, entries@.len()) && states[0] == store && states.last()
                    == *final(m) && warnings.deep_view() == notes.filter(
                    |n: Option<String>| n is Some,
                ).map_values(|n: Option<String>| n->0@) && forall|i: int|
                    #[trigger] is_turn(states, i) ==> exists|at: &mut S|
                        *at == states[i] && *final(at) == states[i + 1]
                            && #[trigger] call_ensures(
                            startup::register_one::<S>,
                            (at, &entries@[i], force_eager, already_loaded),
                            notes[i],
                        ) by {
        let (notes, states) = choose|notes: Seq<Option<String>>, states: Seq<S>| #[trigger]
            chain::leads(states, store, *final(m), entries@.len()) && notes.len()
                == entries@.len() && warnings.deep_view() == #[trigger] startup::told(notes)
                && forall|i: int| #[trigger]
                chain::is_step(states, i) ==> (exists|at: &mut S|
                        *at == states[i] && *final(at) == states[i + 1]
                            && #[trigger] call_ensures(
                            startup::register_one::<S>,
                            (at, &entries@[i], force_eager, already_loaded),
                            notes[i],
                        ));
        notes_are_told(notes);
        assert forall|i: int| #[trigger] is_turn(states, i) implies exists|at: &mut S|
                        *at == states[i] && *final(at) == states[i + 1]
                            && #[trigger] call_ensures(
                            startup::register_one::<S>,
                            (at, &entries@[i], force_eager, already_loaded),
                            notes[i],
                        ) by {
            assert(chain::is_step(states, i));
        }
        assert(line_up(states, notes, entries@.len()));
    }
}

/// Every kept definition is restored, in order, each from the state that the one
/// before left, and every warning is told.
pub proof fn every_kept_definition_is_restored<S: StartingStore>(
    store: S,
    persisted: &[KvDefinition],
    config_names: &[String],
)
    ensures
        forall|m: &mut S, warnings: Vec<String>|
            *m == store && #[trigger] call_ensures(
                startup::restore_persisted_definitions::<S>,
                (m, persisted, config_names),
                warnings,
            ) ==> exists|states: Seq<S>, notes: Seq<Option<String>>| #[trigger]
                line_up(states, notes, persisted@.len()) && states[0] == store && states.last()
                    == *final(m) && warnings.deep_view() == notes.filter(
                    |n: Option<String>| n is Some,
                ).map_values(|n: Option<String>| n->0@) && forall|i: int|
                    #[trigger] is_turn(states, i) ==> exists|at: &mut S|
                        *at == states[i] && *final(at) == states[i + 1]
                            && #[trigger] call_ensures(
                            startup::restore_one::<S>,
                            (at, &persisted@[i], config_names),
                            notes[i],
                        ),
{
    assert forall|m: &mut S, warnings: Vec<String>|
        *m == store && #[trigger] call_ensures(
            startup::restore_persisted_definitions::<S>,
            (m, persisted, config_names),
            warnings,
        ) implies exists|states: Seq<S>, notes: Seq<Option<String>>| #[trigger]
                line_up(states, notes, persisted@.len()) && states[0] == store && states.last()
                    == *final(m) && warnings.deep_view() == notes.filter(
                    |n: Option<String>| n is Some,
                ).map_values(|n: Option<String>| n->0@) && forall|i: int|
                    #[trigger] is_turn(states, i) ==> exists|at: &mut S|
                        *at == states[i] && *final(at) == states[i + 1]
                            && #[trigger] call_ensures(
                            startup::restore_one::<S>,
                            (at, &persisted@[i], config_names),
                            notes[i],
                        ) by {
        let (notes, states) = choose|notes: Seq<Option<String>>, states: Seq<S>| #[trigger]
            chain::leads(states, store, *final(m), persisted@.len()) && notes.len()
                == persisted@.len() && warnings.deep_view() == #[trigger] startup::told(notes)
                && forall|i: int| #[trigger]
                chain::is_step(states, i) ==> (exists|at: &mut S|
                        *at == states[i] && *final(at) == states[i + 1]
                            && #[trigger] call_ensures(
                            startup::restore_one::<S>,
                            (at, &persisted@[i], config_names),
                            notes[i],
                        ));
        notes_are_told(notes);
        assert forall|i: int| #[trigger] is_turn(states, i) implies exists|at: &mut S|
                        *at == states[i] && *final(at) == states[i + 1]
                            && #[trigger] call_ensures(
                            startup::restore_one::<S>,
                            (at, &persisted@[i], config_names),
                            notes[i],
                        ) by {
            assert(chain::is_step(states, i));
        }
        assert(line_up(states, notes, persisted@.len()));
    }
}

/// Before the configuration is registered, the definition of every key that it
/// defines is dropped, in order, and no other.
pub proof fn what_the_configuration_defines_is_cleared<S: StartingStore>(
    store: S,
    config_names: &[String],
)
    ensures
        forall|m: &mut S|
            *m == store && #[trigger] call_ensures(
                startup::clear_config_owned_definitions::<S>,
                (m, config_names),
                (),
            ) ==> exists|states: Seq<S>| #[trigger]
                one_more(states, config_names@.len()) && states[0] == store && states.last()
                    == *final(m) && forall|i: int|
                    #[trigger] is_turn(states, i) ==> exists|at: &mut S, k: &str|
                        k@ == config_names@[i]@ && *at == states[i] && *final(at)
                            == states[i + 1] && #[trigger] call_ensures(S::undefine, (at, k), ()),
        forall|m: &mut S|
            *m == store && #[trigger] call_ensures(
                startup::undefine_all::<S>,
                (m, config_names),
                (),
            ) ==> exists|states: Seq<S>| #[trigger]
                one_more(states, config_names@.len()) && states[0] == store && states.last()
                    == *final(m) && forall|i: int|
                    #[trigger] is_turn(states, i) ==> exists|at: &mut S, k: &str|
                        k@ == config_names@[i]@ && *at == states[i] && *final(at)
                            == states[i + 1] && #[trigger] call_ensures(S::undefine, (at, k), ()),
{
    assert forall|m: &mut S|
        *m == store && #[trigger] call_ensures(startup::clear_config_owned_definitions::<S>, (m, config_names), ()) implies exists|states: Seq<S>| #[trigger]
                one_more(states, config_names@.len()) && states[0] == store && states.last()
                    == *final(m) && forall|i: int|
                    #[trigger] is_turn(states, i) ==> exists|at: &mut S, k: &str|
                        k@ == config_names@[i]@ && *at == states[i] && *final(at)
                            == states[i + 1] && #[trigger] call_ensures(S::undefine, (at, k), ()) by {
        let states = choose|states: Seq<S>| #[trigger]
            chain::leads(states, store, *final(m), config_names@.len()) && forall|i: int| #[trigger]
                chain::is_step(states, i) ==> (exists|at: &mut S, k: &str|
                    k@ == config_names@[i]@ && *at == states[i] && *final(at) == states[i + 1]
                        && #[trigger] call_ensures(S::undefine, (at, k), ()));
        assert forall|i: int| #[trigger] is_turn(states, i) implies exists|at: &mut S, k: &str|
            k@ == config_names@[i]@ && *at == states[i] && *final(at) == states[i + 1]
                && #[trigger] call_ensures(S::undefine, (at, k), ()) by {
            assert(chain::is_step(states, i));
        }
        assert(one_more(states, config_names@.len()));
    }
    assert forall|m: &mut S|
        *m == store && #[trigger] call_ensures(startup::undefine_all::<S>, (m, config_names), ()) implies exists|states: Seq<S>| #[trigger]
                one_more(states, config_names@.len()) && states[0] == store && states.last()
                    == *final(m) && forall|i: int|
                    #[trigger] is_turn(states, i) ==> exists|at: &mut S, k: &str|
                        k@ == config_names@[i]@ && *at == states[i] && *final(at)
                            == states[i + 1] && #[trigger] call_ensures(S::undefine, (at, k), ()) by {
        let states = choose|states: Seq<S>| #[trigger]
            chain::leads(states, store, *final(m), config_names@.len()) && forall|i: int| #[trigger]
                chain::is_step(states, i) ==> (exists|at: &mut S, k: &str|
                    k@ == config_names@[i]@ && *at == states[i] && *final(at) == states[i + 1]
                        && #[trigger] call_ensures(S::undefine, (at, k), ()));
        assert forall|i: int| #[trigger] is_turn(states, i) implies exists|at: &mut S, k: &str|
            k@ == config_names@[i]@ && *at == states[i] && *final(at) == states[i + 1]
                && #[trigger] call_ensures(S::undefine, (at, k), ()) by {
            assert(chain::is_step(states, i));
        }
        assert(one_more(states, config_names@.len()));
    }
}

/// Only definitions that nobody asks for are removed at the start, and all of
/// those that the store has.
pub proof fn only_stale_definitions_are_removed<S: StartingStore>(
    store: S,
    config_names: &[String],
    persisted_names: &[String],
)
    ensures
        forall|m: &mut S, stale: Vec<String>|
            *m == store && #[trigger] call_ensures(
                startup::purge_stale_import_definitions::<S>,
                (m, config_names, persisted_names),
                stale,
            ) ==> exists|defined: Vec<String>| #[trigger]
                call_ensures(S::defined_keys, (&store,), defined) && forall|key: Seq<char>|
                    #![trigger stale.deep_view().contains(key)]
                    stale.deep_view().contains(key) <==> defined.deep_view().contains(key)
                        && !config_names.deep_view().contains(key)
                        && !persisted_names.deep_view().contains(key),
{
    assert forall|m: &mut S, stale: Vec<String>|
        *m == store && #[trigger] call_ensures(
            startup::purge_stale_import_definitions::<S>,
            (m, config_names, persisted_names),
            stale,
        ) implies exists|defined: Vec<String>| #[trigger]
        call_ensures(S::defined_keys, (&store,), defined) && forall|key: Seq<char>|
            #![trigger stale.deep_view().contains(key)]
            stale.deep_view().contains(key) <==> defined.deep_view().contains(key)
                && !config_names.deep_view().contains(key)
                && !persisted_names.deep_view().contains(key) by {
        let defined = choose|defined: Vec<String>| #[trigger]
            call_ensures(S::defined_keys, (&store,), defined) && stale.deep_view()
                == server::stale_keys(
                defined.deep_view(),
                config_names.deep_view(),
                persisted_names.deep_view(),
            );
        let all = defined.deep_view();
        let a = config_names.deep_view();
        let b = persisted_names.deep_view();
        let goes = |k: Seq<char>| !a.contains(k) && !b.contains(k);
        assert(stale.deep_view() =~= all.filter(goes));
        assert forall|key: Seq<char>|
            #![trigger stale.deep_view().contains(key)]
            stale.deep_view().contains(key) <==> all.contains(key) && !a.contains(key)
                && !b.contains(key) by {
            if stale.deep_view().contains(key) {
                let j = choose|j: int|
                    0 <= j < stale.deep_view().len() && stale.deep_view()[j] == key;
                all.lemma_filter_pred(goes, j);
                all.lemma_filter_contains_rev(goes, key);
            }
            if all.contains(key) && goes(key) {
                let j = choose|j: int| 0 <= j < all.len() && all[j] == key;
                all.lemma_filter_contains(goes, j);
            }
        }
    }
}

/// What the configuration defines is not among the online definitions, and what
/// it does not define is, as it is.
pub proof fn online_definitions_are_the_others(
    snapshot: &[KvDefinition],
    config_names: &[String],
    i: int,
    context: &str,
    key: String,
    r: Vec<KvDefinition>,
)
    requires
        0 <= i < snapshot@.len(),
        context@ == "default"@,
        call_ensures(KvDefinition::full_key, (&snapshot@[i], context), key),
        call_ensures(server::online_definitions, (snapshot, config_names), r),
    ensures
        config_names.deep_view().contains(key@) <==> !r.deep_view().contains(snapshot@[i]@),
        r@.len() <= snapshot@.len(),
        forall|j: int|
            0 <= j < r@.len() ==> snapshot.deep_view().contains((#[trigger] r@[j])@),
{
    let all = snapshot.deep_view();
    let names = config_names.deep_view();
    let kept = |d: DefView| !names.contains(defs::file_key(d));
    assert(all[i] == snapshot@[i]@);
    server::only_online_definitions_are_written(all, names, snapshot@[i]@);
    assert(r.deep_view() =~= all.filter(kept));
    all.lemma_filter_len(kept);
    assert(r.deep_view().len() == r@.len());
    assert forall|j: int| 0 <= j < r@.len() implies all.contains((#[trigger] r@[j])@) by {
        assert(r.deep_view()[j] == r@[j]@);
        all.lemma_filter_contains_rev(kept, r@[j]@);
    }
}

/// Where definitions are kept, what is written down is what the store holds and
/// the configuration does not define; where they are not, nothing is written.
pub proof fn what_is_written_down<S: StartingStore, F: DefinitionFile>(
    store: &S,
    before: F,
    config_names: &[String],
)
    ensures
        forall|f: &mut F, r: Result<(), String>|
            *f == before && #[trigger] call_ensures(
                startup::persist_if_enabled::<S, F>,
                (store, None, f),
                r,
            ) ==> r is Ok && *final(f) == before,
        forall|f: &mut F, r: Result<(), String>|
            *f == before && #[trigger] call_ensures(
                startup::persist_if_enabled::<S, F>,
                (store, Some(config_names), f),
                r,
            ) ==> exists|g: &mut F, saved: &[KvDefinition]|
                *g == before && *final(g) == *final(f) && (forall|j: int|
                    0 <= j < saved@.len() ==> !config_names.deep_view().contains(
                        defs::file_key((#[trigger] saved@[j])@),
                    )) && #[trigger] call_ensures(F::save, (g, saved), r),
{
    assert forall|saved: &[KvDefinition], keys: Seq<StoreKey>, j: int|
        #![trigger startup::belongs_on_disk(saved.deep_view(), keys, config_names.deep_view()), saved@[j]]
        startup::belongs_on_disk(saved.deep_view(), keys, config_names.deep_view()) && 0 <= j
            < saved@.len() implies !config_names.deep_view().contains(
        defs::file_key(saved@[j]@),
    ) by {
        assert(saved.deep_view()[j] == saved@[j]@);
        startup::config_definitions_never_reach_the_disk(
            saved.deep_view(),
            keys,
            config_names.deep_view(),
            j,
        );
    }
}

/// At the start a failure to write the definitions down is no more than a
/// warning, which names the file.
pub proof fn a_failed_write_is_a_warning<S: StartingStore, F: DefinitionFile>(
    store: &S,
    before: F,
    config_names: &[String],
    path: &str,
)
    ensures
        forall|f: &mut F, r: Option<String>|
            *f == before && #[trigger] call_ensures(
                startup::write_online_definitions::<S, F>,
                (store, config_names, path, f),
                r,
            ) ==> exists|g: &mut F, result: Result<(), String>|
                *g == before && *final(g) == *final(f) && #[trigger] call_ensures(
                    startup::persist_if_enabled::<S, F>,
                    (store, Some(config_names), g),
                    result,
                ) && (r is None <==> result is Ok) && (result matches Err(e) ==> r->0@
                    == "cache-warden: warning: could not write persisted definitions "@ + path@
                    + ": "@ + e@),
{
}

/// A request goes to what handles its kind, with what it carries.
pub proof fn requests_are_handled_by_kind<S: SecretStore>(
    store: S,
    ctx: &HandlerCtx,
    req: Request,
)
    ensures
        forall|m: &mut S, r: Response|
            *m == store && #[trigger] call_ensures(
                requests::handle_request::<S>,
                (m, ctx, req),
                r,
            ) ==> {
                &&& req matches Request::KvGet { key, dry_run } ==> exists|at: &mut S|
                    *at == store && *final(at) == *final(m) && #[trigger] call_ensures(
                        requests::handle_get::<S>,
                        (at, ctx, key, dry_run),
                        r,
                    )
                &&& req matches Request::KvClaim { key, expected_version, duration_secs }
                    ==> exists|at: &mut S|
                    *at == store && *final(at) == *final(m) && #[trigger] call_ensures(
                        requests::handle_claim::<S>,
                        (at, key, expected_version, duration_secs),
                        r,
                    )
                &&& req matches Request::KvUnclaim { key, claim_token } ==> exists|at: &mut S|
                    *at == store && *final(at) == *final(m) && #[trigger] call_ensures(
                        requests::handle_unclaim::<S>,
                        (at, key, claim_token),
                        r,
                    )
                &&& req matches Request::KvDefine {
                    key,
                    source,
                    soft_ttl_secs,
                    hard_ttl_secs,
                    meta,
                } ==> exists|at: &mut S|
                    *at == store && *final(at) == *final(m) && #[trigger] call_ensures(
                        requests::handle_define::<S>,
                        (at, key, source, soft_ttl_secs, hard_ttl_secs, meta),
                        r,
                    )
                &&& req matches Request::KvSet {
                    key,
                    source,
                    soft_ttl_secs,
                    hard_ttl_secs,
                    guard_constraints,
                    expected_version,
                    claim_token,
                    ..
                } ==> exists|at: &mut S|
                    *at == store && *final(at) == *final(m) && #[trigger] call_ensures(
                        requests::handle_set::<S>,
                        (
                            at,
                            ctx,
                            key,
                            source,
                            soft_ttl_secs,
                            hard_ttl_secs,
                            guard_constraints,
                            expected_version,
                            claim_token,
                        ),
                        r,
                    )
                &&& req is Status || req is KvList || req is Ping ==> *final(m) == store
                &&& req is RestartGraceful ==> r is Failure && *final(m) == store
            },
{
}

/// A status tells of the daemon what it runs as.
pub proof fn a_status_tells_of_the_daemon<S: SecretStore>(store: S, ctx: &HandlerCtx)
    ensures
        forall|m: &mut S, r: Response|
            *m == store && #[trigger] call_ensures(
                requests::handle_request::<S>,
                (m, ctx, Request::Status),
                r,
            ) ==> (r matches Response::Success(body) && (body.payload matches OkPayload::Status {
                pid,
                version,
                socket,
                full_disk_access,
                ..
            } && pid == ctx.pid && version@ == ctx.version@ && socket@ == ctx.socket@
                && full_disk_access == ctx.full_disk_access)),
{
}

/// At the start the configuration's keys are cleared before its definitions are
/// registered, over the values that were there; where definitions are not kept,
/// nothing else is done and the file is left alone.
pub proof fn how_a_start_begins<S: StartingStore, F: DefinitionFile>(
    store: S,
    around: F,
    config_defs: &[KvDefinition],
    agent_keys: &[String],
)
    ensures
        forall|m: &mut S, f: &mut F, warnings: Vec<String>|
            *m == store && *f == around && #[trigger] call_ensures(
                startup::start_definitions::<S, F>,
                (m, config_defs, agent_keys, None, f),
                warnings,
            ) ==> *final(f) == around && exists|names: &[String], loaded: Vec<String>, a: &mut S| #[trigger]
                call_ensures(S::loaded_keys, (&store,), loaded) && names@.len()
                    == config_defs@.len() && *a == store && #[trigger] call_ensures(
                    startup::clear_config_owned_definitions::<S>,
                    (a, names),
                    (),
                ) && exists|b: &mut S, held: &[String], registered: Vec<String>|
                    *b == *final(a) && *final(b) == *final(m) && held@ == loaded@
                        && warnings.deep_view() == registered.deep_view()
                        && #[trigger] call_ensures(
                        startup::register_definitions::<S>,
                        (b, config_defs, agent_keys, held),
                        registered,
                    ),
{
    assert forall|names: &[String], loaded: Vec<String>| #[trigger]
        startup::starts_from(store, config_defs.deep_view(), names, loaded) implies names@.len()
        == config_defs@.len() by {
        assert(names.deep_view().len() == names@.len());
        assert(config_defs.deep_view().len() == config_defs@.len());
        assert(server::definition_keys(config_defs.deep_view()).len()
            == config_defs.deep_view().len());
    }
}

/// Where definitions are kept, a start ends with writing down what the store
/// then holds; a kept file that does not read is told of and brings nothing
/// into the store.
pub proof fn how_a_start_ends<S: StartingStore, F: DefinitionFile>(
    store: S,
    around: F,
    config_defs: &[KvDefinition],
    agent_keys: &[String],
    path: &str,
)
    ensures
        forall|m: &mut S, f: &mut F, warnings: Vec<String>|
            *m == store && *f == around && #[trigger] call_ensures(
                startup::start_definitions::<S, F>,
                (m, config_defs, agent_keys, Some(path), f),
                warnings,
            ) ==> exists|s: &S, names: &[String], g: &mut F, unwritten: Option<String>|
                *s == *final(m) && *final(g) == *final(f) && #[trigger] call_ensures(
                    startup::write_online_definitions::<S, F>,
                    (s, names, path, g),
                    unwritten,
                ) && (unwritten matches Some(note) ==> warnings.deep_view().len() > 0
                    && warnings.deep_view().last() == note@),
        (forall|g: &mut F, read: Result<Vec<KvDefinition>, String>|
            *g == around && #[trigger] call_ensures(F::load, (g,), read) ==> read is Err)
            ==> forall|m: &mut S, f: &mut F, warnings: Vec<String>|
            *m == store && *f == around && #[trigger] call_ensures(
                startup::start_definitions::<S, F>,
                (m, config_defs, agent_keys, Some(path), f),
                warnings,
            ) ==> warnings.deep_view().len() > 0 && exists|
                b: &mut S,
                held: &[String],
                registered: Vec<String>,
            |
                *final(b) == *final(m) && #[trigger] call_ensures(
                    startup::register_definitions::<S>,
                    (b, config_defs, agent_keys, held),
                    registered,
                ),
{
}

/// A value that the user let out is read as one that was let out, and a value
/// without a guard is read with its guard looked at once more; nothing else of
/// what is known of the requester changes.
pub proof fn values_are_read_as_they_were_let_out<S: SecretStore>(
    before: S,
    ctx: &HandlerCtx,
    key: &str,
)
    ensures
        forall|m: &mut S, r: Response|
            *m == before && r is Success && #[trigger] call_ensures(
                dispatch::guarded_get_finalize_after_approval::<S>,
                (m, ctx, key),
                r,
            ) ==> exists|at: &mut S, c: &HandlerCtx, k: String|
                *at == before && *final(at) == *final(m) && k@ == key@ && c.guard_check_mode
                    == GuardCheckMode::AlreadyApproved && c.requester == ctx.requester
                    && c.kv_process_policies == ctx.kv_process_policies && c.guard_chain
                    == ctx.guard_chain && c.guard_audit_token == ctx.guard_audit_token
                    && #[trigger] call_ensures(requests::handle_get::<S>, (at, c, k, false), r),
        forall|m: &mut S, first: GuardedGetFirstPass|
            *m == before && (first matches GuardedGetFirstPass::Direct(resp) && resp is Success)
                && #[trigger] call_ensures(
                dispatch::guarded_get_first_pass::<S>,
                (m, ctx, key),
                first,
            ) ==> exists|at: &mut S, c: &HandlerCtx, k: String|
                *at == before && *final(at) == *final(m) && k@ == key@ && c.guard_check_mode
                    == GuardCheckMode::Evaluate && c.requester == ctx.requester
                    && c.kv_process_policies == ctx.kv_process_policies && c.guard_chain
                    == ctx.guard_chain && c.guard_audit_token == ctx.guard_audit_token
                    && #[trigger] call_ensures(
                    requests::handle_get::<S>,
                    (at, c, k, false),
                    first->Direct_0,
                ),
{
}

} // verus!
