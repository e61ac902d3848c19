//! Laws of what a command sends to the daemon, and of the views it prints.

use vstd::prelude::*;

use crate::chain;
use crate::cli::connection::Connection;
use crate::cli::define;
use crate::cli::define::{BatchItem, BatchView, DefineAttempt, DefineReport};
use crate::cli::guard_ack;
use crate::cli::guard_ack::AckError;
use crate::cli::render;
use crate::cli::render::{ListOutput, VaultOutput};
use crate::config::KvDefinition;
use crate::daemon::entries::EntryInfoView;
use crate::laws::files;
use crate::laws::runs;
use crate::text;
use crate::wire::{EntryInfo, OkPayload, Request, Response};

verus! {

/// What is asked for is the definition, under its key and as it is.
pub open spec fn asks_for(req: Request, def: &KvDefinition, key: Seq<char>) -> bool {
    req matches Request::KvDefine { key: k, source, soft_ttl_secs, hard_ttl_secs, meta } && k@
        == key && files::same_source(source, def.source) && soft_ttl_secs == def.soft_ttl_secs
        && hard_ttl_secs == def.hard_ttl_secs && files::same_meta(meta, def.meta)
}

pub(crate) proof fn definitions_are_asked_for(req: Request, def: &KvDefinition, context: &str, key: String)
    requires
        call_ensures(KvDefinition::full_key, (def, context), key),
        define::is_define_request(req, def@, context@),
    ensures
        asks_for(req, def, key@),
{
    if let Request::KvDefine { source, meta, .. } = req {
        files::sources_by_their_views(source, def.source);
        files::types_by_their_views(meta, def.meta);
    }
}

/// One definition of a batch is asked for once. It counts as defined where the
/// daemon says so, and where it is refused the complaint names its key; a daemon
/// that cannot be reached is an error.
pub proof fn one_definition_is_asked_for<C: Connection>(
    before: C,
    item: &BatchItem,
    def: &KvDefinition,
    context: &str,
    key: String,
)
    requires
        *item matches BatchItem::Define(d) && d == *def,
        call_ensures(KvDefinition::full_key, (def, context), key),
    ensures
        forall|m: &mut C, r: Result<DefineAttempt, String>|
            *m == before && #[trigger] call_ensures(
                define::attempt_item::<C>,
                (m, item, context),
                r,
            ) ==> exists|n: &mut C, req: &Request, reply: Result<Response, String>|
                *n == before && *final(n) == *final(m) && asks_for(*req, def, key@)
                    && #[trigger] call_ensures(C::send, (n, req), reply) && (r is Err <==> reply
                    is Err) && (r matches Ok(DefineAttempt::Defined) <==> reply matches Ok(
                    Response::Success(_),
                )) && (reply matches Ok(Response::Failure(body)) ==> r->Ok_0->Failed_0@ == key@
                    + ": "@ + body.error.message@),
{
    assert forall|req: &Request| #[trigger]
        define::is_define_request(*req, def@, context@) implies asks_for(*req, def, key@) by {
        definitions_are_asked_for(*req, def, context, key);
    }
}

/// A file that does not read is a failure of its own, and nothing is sent for
/// it.
pub proof fn unread_files_are_failures<C: Connection>(
    before: C,
    item: &BatchItem,
    context: &str,
)
    requires
        *item is Unreadable,
    ensures
        forall|m: &mut C, r: Result<DefineAttempt, String>|
            *m == before && #[trigger] call_ensures(
                define::attempt_item::<C>,
                (m, item, context),
                r,
            ) ==> *final(m) == before && (r matches Ok(DefineAttempt::Failed(message)) && message@
                == item->Unreadable_0@),
{
}

/// What came of a request for a definition.
pub proof fn what_came_of_a_request(
    key: &str,
    reply: Result<Response, String>,
    r: Result<DefineAttempt, String>,
    name: &str,
    answer: Response,
    go_on: Result<(), String>,
)
    requires
        call_ensures(define::define_attempt, (key, reply), r),
        call_ensures(define::register_reply, (name, answer), go_on),
    ensures
        r matches Ok(DefineAttempt::Defined) <==> reply matches Ok(Response::Success(_)),
        r matches Ok(DefineAttempt::Failed(_)) <==> reply matches Ok(Response::Failure(_)),
        r matches Ok(DefineAttempt::Failed(m)) ==> m@ == key@ + ": "@
            + reply->Ok_0->Failure_0.error.message@,
        go_on is Ok <==> answer is Success,
        go_on matches Err(m) ==> m@ == name@ + ": "@ + answer->Failure_0.error.message@,
{
}

/// A batch that ends has had every part attempted, in order, over the one
/// connection, and the report is about these attempts.
pub proof fn batches_are_attempted_whole<C: Connection>(
    before: C,
    batch: &[BatchItem],
    context: &str,
)
    ensures
        forall|m: &mut C, report: DefineReport|
            *m == before && #[trigger] call_ensures(
                define::run_define_defs::<C>,
                (batch, context, m),
                Ok(report),
            ) ==> exists|states: Seq<C>, attempts: Seq<DefineAttempt>| #[trigger]
                attempts_line_up(states, attempts) && attempts.len() == batch@.len() && states[0]
                    == before && states.last() == *final(m) && define::reports(report, attempts)
                    && forall|i: int| #[trigger]
                    runs::is_turn(states, i) ==> exists|at: &mut C|
                        *at == states[i] && *final(at) == states[i + 1] && #[trigger] call_ensures(
                            define::attempt_item::<C>,
                            (at, &batch@[i], context),
                            Ok(attempts[i]),
                        ),
{
    assert forall|m: &mut C, report: DefineReport|
        *m == before && #[trigger] call_ensures(
            define::run_define_defs::<C>,
            (batch, context, m),
            Ok(report),
        ) implies exists|states: Seq<C>, attempts: Seq<DefineAttempt>| #[trigger]
        attempts_line_up(states, attempts) && attempts.len() == batch@.len() && states[0] == before
            && states.last() == *final(m) && define::reports(report, attempts) && forall|i: int| #[trigger]
            runs::is_turn(states, i) ==> exists|at: &mut C|
                *at == states[i] && *final(at) == states[i + 1] && #[trigger] call_ensures(
                    define::attempt_item::<C>,
                    (at, &batch@[i], context),
                    Ok(attempts[i]),
                ) by {
        let (attempts, states) = choose|attempts: Seq<DefineAttempt>, states: Seq<C>| #[trigger]
            define::went_through(states, before, attempts) && (forall|i: int| #[trigger]
                chain::is_step(states, i) ==> (exists|at: &mut C|
                    *at == states[i] && *final(at) == states[i + 1] && #[trigger] call_ensures(
                        define::attempt_item::<C>,
                        (at, &batch@[i], context),
                        Ok(attempts[i]),
                    ))) && attempts.len() == batch@.len() && define::reports(report, attempts)
                && *final(m) == states.last();
        assert forall|i: int| #[trigger] runs::is_turn(states, i) implies exists|at: &mut C|
            *at == states[i] && *final(at) == states[i + 1] && #[trigger] call_ensures(
                define::attempt_item::<C>,
                (at, &batch@[i], context),
                Ok(attempts[i]),
            ) by {
            assert(chain::is_step(states, i));
        }
        assert(attempts_line_up(states, attempts));
    }
}

/// The states before and after each of the attempts.
pub open spec fn attempts_line_up<C>(states: Seq<C>, attempts: Seq<DefineAttempt>) -> bool {
    states.len() == attempts.len() + 1
}

/// One definition that a command needs is asked for once, and it is an error
/// where it is refused or the daemon cannot be reached.
pub proof fn needed_definitions_are_asked_for<C: Connection>(
    before: C,
    def: &KvDefinition,
    context: &str,
    key: String,
)
    requires
        call_ensures(KvDefinition::full_key, (def, context), key),
    ensures
        forall|m: &mut C, r: Result<(), String>|
            *m == before && #[trigger] call_ensures(
                define::register_def::<C>,
                (m, def, context),
                r,
            ) ==> exists|n: &mut C, req: &Request, reply: Result<Response, String>|
                *n == before && *final(n) == *final(m) && asks_for(*req, def, key@)
                    && #[trigger] call_ensures(C::send, (n, req), reply) && (r is Ok
                    <==> reply matches Ok(Response::Success(_))),
{
    assert forall|req: &Request| #[trigger]
        define::is_define_request(*req, def@, context@) implies asks_for(*req, def, key@) by {
        definitions_are_asked_for(*req, def, context, key);
    }
}

/// Nothing runs with half of its definitions: success means that every one was
/// registered, in order.
pub proof fn needed_definitions_are_all_registered<C: Connection>(
    before: C,
    found: &[KvDefinition],
    context: &str,
)
    ensures
        forall|m: &mut C, r: Result<(), String>|
            *m == before && r is Ok && #[trigger] call_ensures(
                define::register_defs::<C>,
                (found, context, m),
                r,
            ) ==> exists|states: Seq<C>| #[trigger]
                runs::one_more(states, found@.len()) && states[0] == before && states.last()
                    == *final(m) && forall|i: int| #[trigger]
                    runs::is_turn(states, i) ==> exists|at: &mut C, done: Result<(), String>|
                        *at == states[i] && *final(at) == states[i + 1] && done is Ok
                            && #[trigger] call_ensures(
                            define::register_def::<C>,
                            (at, &found@[i], context),
                            done,
                        ),
{
    assert forall|m: &mut C, r: Result<(), String>|
        *m == before && r is Ok && #[trigger] call_ensures(
            define::register_defs::<C>,
            (found, context, m),
            r,
        ) implies exists|states: Seq<C>| #[trigger]
        runs::one_more(states, found@.len()) && states[0] == before && states.last() == *final(m)
            && forall|i: int| #[trigger]
            runs::is_turn(states, i) ==> exists|at: &mut C, done: Result<(), String>|
                *at == states[i] && *final(at) == states[i + 1] && done is Ok
                    && #[trigger] call_ensures(
                    define::register_def::<C>,
                    (at, &found@[i], context),
                    done,
                ) by {
        let states = choose|states: Seq<C>| #[trigger]
            chain::leads(states, before, states.last(), (states.len() - 1) as nat) && (forall|
                i: int,
            | #[trigger]
                chain::is_step(states, i) ==> (exists|at: &mut C, done: Result<(), String>|
                    *at == states[i] && *final(at) == states[i + 1] && done is Ok
                        && #[trigger] call_ensures(
                        define::register_def::<C>,
                        (at, &found@[i], context),
                        done,
                    ))) && states.len() == found@.len() + 1 && *final(m) == states.last();
        assert forall|i: int| #[trigger] runs::is_turn(states, i) implies exists|
            at: &mut C,
            done: Result<(), String>,
        |
            *at == states[i] && *final(at) == states[i + 1] && done is Ok
                && #[trigger] call_ensures(
                define::register_def::<C>,
                (at, &found@[i], context),
                done,
            ) by {
            assert(chain::is_step(states, i));
        }
        assert(runs::one_more(states, found@.len()));
    }
}

/// A file adds its definitions to the end of a batch, in their order; one that
/// does not read adds that it does not.
pub proof fn files_go_to_the_end_of_a_batch(
    before: Vec<BatchItem>,
    file: Result<Vec<KvDefinition>, String>,
)
    ensures
        forall|m: &mut Vec<BatchItem>|
            *m == before && #[trigger] call_ensures(define::add_file, (m, file), ()) ==> {
                &&& final(m)@.len() == before@.len() + match file {
                    Ok(found) => found@.len(),
                    Err(_) => 1,
                }
                &&& forall|i: int|
                    0 <= i < before@.len() ==> (#[trigger] final(m)@[i])@ == before@[i]@
                &&& file matches Ok(found) ==> forall|i: int|
                    before@.len() <= i < final(m)@.len() ==> (#[trigger] final(m)@[i])@
                        == BatchView::Define(found@[i - before@.len()]@)
                &&& file matches Err(e) ==> final(m)@[before@.len() as int]@
                    == BatchView::Unreadable(e@)
            },
{
    assert forall|m: &mut Vec<BatchItem>|
        *m == before && #[trigger] call_ensures(define::add_file, (m, file), ()) implies {
        &&& final(m)@.len() == before@.len() + match file {
            Ok(found) => found@.len(),
            Err(_) => 1,
        }
        &&& forall|i: int| 0 <= i < before@.len() ==> (#[trigger] final(m)@[i])@ == before@[i]@
        &&& file matches Ok(found) ==> forall|i: int|
            before@.len() <= i < final(m)@.len() ==> (#[trigger] final(m)@[i])@
                == BatchView::Define(found@[i - before@.len()]@)
        &&& file matches Err(e) ==> final(m)@[before@.len() as int]@ == BatchView::Unreadable(e@)
    } by {
        let after = final(m).deep_view();
        assert(after.len() == final(m)@.len());
        assert(before.deep_view().len() == before@.len());
        assert forall|i: int| 0 <= i < final(m)@.len() implies (#[trigger] final(m)@[i])@
            == after[i] by {}
        assert forall|i: int| 0 <= i < before@.len() implies (#[trigger] final(m)@[i])@
            == before@[i]@ by {
            assert(after[i] == before.deep_view()[i]);
            assert(before.deep_view()[i] == before@[i].deep_view());
        }
        if let Ok(found) = file {
            assert(found.deep_view().len() == found@.len());
            assert forall|i: int| before@.len() <= i < final(m)@.len() implies (
            #[trigger] final(m)@[i])@ == BatchView::Define(found@[i - before@.len()]@) by {
                assert(found.deep_view()[i - before@.len()] == found@[i - before@.len()]@);
            }
        }
    }
}

/// A guarded write succeeds only where the daemon named constraints that it
/// applied; a value that it stored without them is deleted at the same key, its
/// definition left alone, and that is an error.
pub proof fn unguarded_values_are_deleted<C: Connection>(before: C, req: &Request)
    ensures
        forall|m: &mut C, r: Result<String, AckError>|
            *m == before && r is Ok && #[trigger] call_ensures(
                guard_ack::expect_guard_ack_with_sender::<C>,
                (req, m),
                r,
            ) ==> exists|n: &mut C, first: Result<Response, String>|
                *n == before && *final(n) == *final(m) && #[trigger] call_ensures(
                    C::send,
                    (n, req),
                    first,
                ) && (first matches Ok(Response::Success(body)) && (body.payload matches
                    OkPayload::Stored { guard_applied, .. } && guard_applied@.len() > 0)),
        (*req is KvSet && forall|n: &mut C, first: Result<Response, String>|
            *n == before && #[trigger] call_ensures(C::send, (n, req), first) ==> (first matches Ok(
                Response::Success(body),
            ) && (body.payload matches OkPayload::Stored { guard_applied, .. }
                && guard_applied@.len() == 0))) ==> forall|m: &mut C, r: Result<String, AckError>|
            *m == before && #[trigger] call_ensures(
                guard_ack::expect_guard_ack_with_sender::<C>,
                (req, m),
                r,
            ) ==> r is Err && exists|
                n: &mut C,
                deletion: &Request,
                second: Result<Response, String>,
            |
                *final(n) == *final(m) && #[trigger] call_ensures(C::send, (n, deletion), second)
                    && (*deletion matches Request::KvDel { key, with_define } && key@
                    == req->KvSet_key@ && !with_define),
{
}

/// What is said of an unguarded value: that it is gone where it was deleted, and
/// how to delete it where it was not.
pub proof fn what_is_said_of_an_unguarded_value(
    key: &str,
    reply: Result<Response, String>,
    r: String,
)
    requires
        call_ensures(guard_ack::taken_back, (key, reply), r),
    ensures
        reply matches Ok(Response::Success(_)) ==> exists|a: Seq<char>, b: Seq<char>| r@
            == #[trigger] (a + " was auto-deleted"@ + b),
        !(reply matches Ok(Response::Success(_))) ==> exists|a: Seq<char>, b: Seq<char>| r@
            == #[trigger] (a + ("`cache-warden kv del "@ + key@ + "` immediately"@) + b),
{
    let head =
        "daemon accepted the set but did not report any applied guard constraints; you likely have an old cache-warden daemon that does not enforce per-entry access guards, so the value was stored WITHOUT the requested guard. "@;
    let tail =
        ". Restart the daemon with a matching version (`cache-warden daemon restart --graceful` or a service restart) before relying on --require-* flags."@;
    let shown = "the unguarded value at "@ + text::debug_text(key@);
    if reply matches Ok(Response::Success(_)) {
        assert(r@ =~= (head + shown) + " was auto-deleted"@ + tail);
    } else {
        let why = match reply {
            Ok(Response::Failure(e)) => render::failure_text(e),
            Ok(_) => Seq::empty(),
            Err(e) => e@,
        };
        reveal_strlit("); run `cache-warden kv del ");
        reveal_strlit("); run ");
        reveal_strlit("`cache-warden kv del ");
        reveal_strlit("` immediately");
        assert("); run `cache-warden kv del "@ =~= "); run "@ + "`cache-warden kv del "@);
        assert(r@ =~= (head + shown + " could NOT be auto-deleted ("@ + why + "); run "@) + (
        "`cache-warden kv del "@ + key@ + "` immediately"@) + tail);
    }
}

proof fn views_add_up(
    a: Seq<EntryInfoView>,
    b: Seq<EntryInfoView>,
    ns: Seq<char>,
    all: bool,
)
    ensures
        render::viewed_entries(a + b, ns, all) == render::viewed_entries(a, ns, all)
            + render::viewed_entries(b, ns, all),
    decreases b.len(),
{
    if b.len() == 0 {
        assert(a + b =~= a);
    } else {
        views_add_up(a, b.drop_last(), ns, all);
        assert((a + b).drop_last() =~= a + b.drop_last());
        assert((a + b).last() == b.last());
    }
}

/// A status in a view tells of the daemon itself what it told before.
pub proof fn a_view_changes_entries_alone(resp: Response, ns: &str, all: bool, r: Response)
    requires
        call_ensures(render::status_in_namespace, (resp, ns, all), r),
    ensures
        !(resp matches Response::Success(body) && body.payload is Status) ==> r == resp,
        resp matches Response::Success(body) ==> (body.payload matches OkPayload::Status {
            pid,
            version,
            socket,
            full_disk_access,
            vault,
            ..
        } ==> (r matches Response::Success(b) && (b.payload matches OkPayload::Status {
            pid: p,
            version: v,
            socket: s,
            full_disk_access: f,
            vault: w,
            ..
        } && p == pid && v == version && s == socket && f == full_disk_access && w == vault))),
{
}

/// The entries of a status in a view are those that are shown of its parts, one
/// behind the other.
pub proof fn views_follow_one_another(
    first: Response,
    second: Response,
    whole: Response,
    ns: &str,
    all: bool,
    a: Response,
    b: Response,
    r: Response,
)
    requires
        first matches Response::Success(body) && body.payload is Status,
        second matches Response::Success(body) && body.payload is Status,
        whole matches Response::Success(body) && body.payload is Status,
        whole->Success_0.payload->Status_entries@ == first->Success_0.payload->Status_entries@
            + second->Success_0.payload->Status_entries@,
        call_ensures(render::status_in_namespace, (first, ns, all), a),
        call_ensures(render::status_in_namespace, (second, ns, all), b),
        call_ensures(render::status_in_namespace, (whole, ns, all), r),
    ensures
        r->Success_0.payload->Status_entries.deep_view()
            == a->Success_0.payload->Status_entries.deep_view()
            + b->Success_0.payload->Status_entries.deep_view(),
{
    let x = first->Success_0.payload->Status_entries.deep_view();
    let y = second->Success_0.payload->Status_entries.deep_view();
    assert(whole->Success_0.payload->Status_entries.deep_view() =~= x + y);
    views_add_up(x, y, ns@, all);
}

/// One entry is in a view exactly where its key is shown there, under the name
/// it is shown by and otherwise as it was.
pub proof fn entries_are_shown_by_name(
    resp: Response,
    name: &str,
    ns: &str,
    all: bool,
    shown: Option<String>,
    r: Response,
)
    requires
        resp matches Response::Success(body) && (body.payload matches OkPayload::Status {
            entries,
            ..
        } && entries@.len() == 1 && entries@[0].name@ == name@),
        call_ensures(render::display_name, (name, ns, all), shown),
        call_ensures(render::status_in_namespace, (resp, ns, all), r),
    ensures
        ({
            let e = resp->Success_0.payload->Status_entries@[0];
            let left = r->Success_0.payload->Status_entries@;
            &&& shown is None ==> left.len() == 0
            &&& shown is Some ==> left.len() == 1 && left[0].name@ == shown->0@ && left[0].state@
                == e.state@ && left[0].regenerable == e.regenerable && left[0].defined == e.defined
                && left[0].has_value == e.has_value && left[0].pin_remaining_secs
                == e.pin_remaining_secs && left[0].value_type.deep_view()
                == e.value_type.deep_view() && left[0].source.deep_view() == e.source.deep_view()
                && left[0].backoff_until_secs == e.backoff_until_secs
                && left[0].guard_summary.deep_view() == e.guard_summary.deep_view()
                && left[0].version == e.version && left[0].claim_expires_in_secs
                == e.claim_expires_in_secs && left[0].locked == e.locked
        }),
{
    let entries = resp->Success_0.payload->Status_entries;
    let left = r->Success_0.payload->Status_entries;
    let views = entries.deep_view();
    assert(views.len() == 1);
    assert(views[0] == entries@[0].deep_view());
    assert(render::viewed_entries(views.drop_last(), ns@, all) =~= Seq::<EntryInfoView>::empty());
    assert(left.deep_view().len() == left@.len());
    if shown is Some {
        assert(left.deep_view()[0] == left@[0].deep_view());
    }
}

proof fn lines_add_up(
    keys: Seq<Seq<char>>,
    more: Seq<Seq<char>>,
    entries: Seq<EntryInfoView>,
    others: Seq<EntryInfoView>,
    ns: Seq<char>,
    all: bool,
    n: nat,
)
    requires
        keys.len() == entries.len(),
        more.len() == others.len(),
        n <= keys.len() + more.len(),
    ensures
        n <= keys.len() ==> render::list_lines(keys + more, entries + others, ns, all, n)
            == render::list_lines(keys, entries, ns, all, n),
        n > keys.len() ==> render::list_lines(keys + more, entries + others, ns, all, n)
            == render::list_lines(keys, entries, ns, all, keys.len()) + render::list_lines(
            more,
            others,
            ns,
            all,
            (n - keys.len()) as nat,
        ),
    decreases n,
{
    if n > 0 {
        lines_add_up(keys, more, entries, others, ns, all, (n - 1) as nat);
        if n > keys.len() {
            assert((keys + more)[n - 1] == more[n - 1 - keys.len()]);
            assert((entries + others)[n - 1] == others[n - 1 - keys.len()]);
            let first = render::list_lines(keys, entries, ns, all, keys.len());
            if n - 1 == keys.len() {
                assert(render::list_lines(more, others, ns, all, 0) =~= Seq::<Seq<char>>::empty());
                assert(first + Seq::<Seq<char>>::empty() =~= first);
            }
            assert(render::list_lines(keys + more, entries + others, ns, all, n) =~= first
                + render::list_lines(more, others, ns, all, (n - keys.len()) as nat));
        }
    }
}

/// A list is the lists of its parts, one behind the other.
pub proof fn lists_follow_one_another(
    keys: &[String],
    more: &[String],
    together: &[String],
    entries: &[EntryInfo],
    others: &[EntryInfo],
    both: &[EntryInfo],
    ns: &str,
    all: bool,
    a: Vec<String>,
    b: Vec<String>,
    r: Vec<String>,
)
    requires
        keys@.len() == entries@.len(),
        more@.len() == others@.len(),
        together@ == keys@ + more@,
        both@ == entries@ + others@,
        call_ensures(render::render_kv_list, (keys, entries, ns, all), a),
        call_ensures(render::render_kv_list, (more, others, ns, all), b),
        call_ensures(render::render_kv_list, (together, both, ns, all), r),
    ensures
        r.deep_view() == a.deep_view() + b.deep_view(),
{
    let k = keys.deep_view();
    let m = more.deep_view();
    let e = entries.deep_view();
    let o = others.deep_view();
    assert(together.deep_view() =~= k + m);
    assert(both.deep_view() =~= e + o);
    lines_add_up(k, m, e, o, ns@, all, (k.len() + m.len()) as nat);
    if m.len() == 0 {
        assert(b.deep_view() =~= Seq::<Seq<char>>::empty());
        assert(a.deep_view() + b.deep_view() =~= a.deep_view());
    }
}

/// A list of one key is the line of the key, where it is shown.
pub proof fn one_key_is_one_line(
    keys: &[String],
    entries: &[EntryInfo],
    key: &str,
    ns: &str,
    all: bool,
    line: Option<String>,
    r: Vec<String>,
)
    requires
        keys@.len() == 1,
        entries@.len() == 1,
        key@ == keys@[0]@,
        call_ensures(render::kv_list_line, (key, Some(&entries@[0]), ns, all), line),
        call_ensures(render::render_kv_list, (keys, entries, ns, all), r),
    ensures
        line is None ==> r@.len() == 0,
        line is Some ==> r@.len() == 1 && r@[0]@ == line->0@,
{
    let k = keys.deep_view();
    let e = entries.deep_view();
    assert(k[0] == keys@[0]@);
    assert(e[0] == entries@[0].deep_view());
    assert(render::list_lines(k, e, ns@, all, 0) =~= Seq::<Seq<char>>::empty());
    assert(render::list_lines(k, e, ns@, all, 1) == r.deep_view());
    assert(r.deep_view().len() == r@.len());
    if line is Some {
        assert(r.deep_view()[0] == r@[0]@);
    }
}

proof fn names_alone(
    keys: Seq<Seq<char>>,
    entries: Seq<EntryInfoView>,
    ns: Seq<char>,
    n: nat,
)
    requires
        keys.len() != entries.len(),
        n <= keys.len(),
    ensures
        render::list_lines(keys, entries, ns, true, n) == keys.take(n as int),
    decreases n,
{
    if n > 0 {
        names_alone(keys, entries, ns, (n - 1) as nat);
        assert(keys.take(n as int) =~= keys.take(n - 1).push(keys[n - 1]));
    } else {
        assert(keys.take(0) =~= Seq::<Seq<char>>::empty());
    }
}

/// Where the reports do not go with the keys, the keys are listed alone.
pub proof fn keys_without_reports_are_listed_alone(
    keys: &[String],
    entries: &[EntryInfo],
    ns: &str,
    r: Vec<String>,
)
    requires
        keys@.len() != entries@.len(),
        call_ensures(render::render_kv_list, (keys, entries, ns, true), r),
    ensures
        r.deep_view() == keys.deep_view(),
{
    names_alone(keys.deep_view(), entries.deep_view(), ns@, keys@.len());
    assert(keys.deep_view().take(keys@.len() as int) =~= keys.deep_view());
}

/// A reply to `kv list` prints its list, and a failure what failed.
pub proof fn what_a_list_prints(
    resp: Response,
    keys: &[String],
    entries: &[EntryInfo],
    ns: &str,
    all: bool,
    failure: String,
    lines: Vec<String>,
    r: ListOutput,
)
    requires
        resp matches Response::Success(body) ==> (body.payload matches OkPayload::List {
            keys: k,
            entries: e,
        } ==> k@ == keys@ && e@ == entries@),
        resp matches Response::Failure(body) ==> call_ensures(
            render::describe_failure,
            (&body,),
            failure,
        ),
        call_ensures(render::render_kv_list, (keys, entries, ns, all), lines),
        call_ensures(render::list_output, (resp, ns, all), r),
    ensures
        r is Lines <==> (resp matches Response::Success(body) && body.payload is List),
        r matches ListOutput::Lines(l) ==> l.deep_view() == lines.deep_view(),
        r is Failed <==> resp is Failure,
        r matches ListOutput::Failed(m) ==> m@ == failure@,
{
    if let Response::Success(body) = resp {
        if let OkPayload::List { keys: k, entries: e } = body.payload {
            assert(keys.deep_view() =~= k.deep_view());
            assert(entries.deep_view() =~= e.deep_view());
        }
    }
}

/// A reply to `status` tells of the vault what it carries, and a failure what
/// failed.
pub proof fn what_is_shown_of_a_vault(resp: Response, failure: String, r: VaultOutput)
    requires
        resp matches Response::Failure(body) ==> call_ensures(
            render::describe_failure,
            (&body,),
            failure,
        ),
        call_ensures(render::vault_output, (resp,), r),
    ensures
        r is Vault <==> (resp matches Response::Success(body) && body.payload is Status),
        r matches VaultOutput::Vault(v) ==> v == resp->Success_0.payload->Status_vault,
        r is Failed <==> resp is Failure,
        r matches VaultOutput::Failed(m) ==> m@ == failure@,
{
}

} // verus!
