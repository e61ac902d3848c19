//! Laws of what a command prints.

use vstd::prelude::*;

use crate::cli::define;
use crate::cli::define::{DefineAttempt, DefineReport};
use crate::cli::get;
use crate::cli::get::GetOutput;
use crate::cli::guard_ack;
use crate::cli::guard_ack::AckStep;
use crate::cli::render;
use crate::cli::render::{Line, Rendered};
use crate::config::KvDefinition;
use crate::daemon::entries::EntryInfoView;
use crate::laws::batches;
use crate::mode::Mode;
use crate::text;
use crate::wire::{
    EntryInfo, ErrBody, ErrorKind, OkBody, OkPayload, Request, Response,
};

verus! {

/// A dry run asks for no value.
pub proof fn a_dry_run_asks_for_no_value(key: &str, mode: Mode, r: Request)
    requires
        call_ensures(get::get_request, (key, mode), r),
    ensures
        r matches Request::KvGet { key: k, dry_run } && k@ == key@ && (dry_run <==> mode
            == Mode::DryRun),
{
}

/// A value is printed as it came, and only where it came; a mask tells the key
/// and whether the value could be had, and nothing else.
pub proof fn what_a_get_prints(key: &str, mode: Mode, resp: Response, r: GetOutput)
    requires
        call_ensures(get::get_output, (key, mode, resp), r),
    ensures
        r is Value <==> (resp matches Response::Success(body) && body.payload is Get),
        r is Masked <==> (resp matches Response::Success(body) && body.payload is GetVerified),
        r is Failed <==> resp is Failure,
        r matches GetOutput::Value(v) ==> v@ == resp->Success_0.payload->Get_value_b64@,
        r matches GetOutput::Masked(line) ==> line@ == "<cache-warden:"@ + key@ + ":masked>"@,
        r matches GetOutput::Failed { line, .. } ==> (line is Some <==> mode == Mode::DryRun) && (
        line is Some ==> line->0@ == "<cache-warden:"@ + key@ + ":failed>"@),
{
}

/// Each kind of failure goes by its own words.
pub proof fn failures_by_name(kind: ErrorKind, r: &'static str)
    requires
        call_ensures(render::error_kind_str, (kind,), r),
    ensures
        kind == ErrorKind::BadRequest ==> r@ == "bad request"@,
        kind == ErrorKind::NotFound ==> r@ == "not found"@,
        kind == ErrorKind::AuthFailed ==> r@ == "auth failed"@,
        kind == ErrorKind::NotRegenerable ==> r@ == "not regenerable"@,
        kind == ErrorKind::HardExpired ==> r@ == "hard expired"@,
        kind == ErrorKind::UpstreamFailed ==> r@ == "upstream failed"@,
        kind == ErrorKind::Internal ==> r@ == "internal error"@,
        kind == ErrorKind::RestartAborted ==> r@ == "restart aborted"@,
        kind == ErrorKind::CasMismatch ==> r@ == "version conflict"@,
        kind == ErrorKind::AlreadyClaimed ==> r@ == "already being refreshed"@,
        kind == ErrorKind::ClaimTokenMismatch ==> r@ == "claim token mismatch"@,
        kind == ErrorKind::VaultLocked ==> r@ == "vault locked"@,
        kind == ErrorKind::VaultNotInitialized ==> r@ == "no vault"@,
{
}

/// Two kinds of failure are never told by the same words.
pub proof fn kinds_of_failure_differ(
    a: ErrorKind,
    b: ErrorKind,
    r: &'static str,
    s: &'static str,
)
    requires
        call_ensures(render::error_kind_str, (a,), r),
        call_ensures(render::error_kind_str, (b,), s),
        r@ == s@,
    ensures
        a == b,
{
    reveal_strlit("bad request");
    reveal_strlit("not found");
    reveal_strlit("auth failed");
    reveal_strlit("not regenerable");
    reveal_strlit("hard expired");
    reveal_strlit("upstream failed");
    reveal_strlit("internal error");
    reveal_strlit("restart aborted");
    reveal_strlit("version conflict");
    reveal_strlit("already being refreshed");
    reveal_strlit("claim token mismatch");
    reveal_strlit("vault locked");
    reveal_strlit("no vault");
    assert("bad request"@.len() == 11 && "bad request"@[0] == 'b');
    assert("not found"@.len() == 9);
    assert("auth failed"@.len() == 11 && "auth failed"@[0] == 'a');
    assert("not regenerable"@.len() == 15 && "not regenerable"@[0] == 'n');
    assert("hard expired"@.len() == 12 && "hard expired"@[0] == 'h');
    assert("upstream failed"@.len() == 15 && "upstream failed"@[0] == 'u');
    assert("internal error"@.len() == 14);
    assert("restart aborted"@.len() == 15 && "restart aborted"@[0] == 'r');
    assert("version conflict"@.len() == 16);
    assert("already being refreshed"@.len() == 23);
    assert("claim token mismatch"@.len() == 20);
    assert("vault locked"@.len() == 12 && "vault locked"@[0] == 'v');
    assert("no vault"@.len() == 8);
}

/// A failure is printed by its kind and its message.
pub proof fn failures_are_printed(e: ErrBody, label: &'static str, guidance: &str, r: String, shown:
    Result<Rendered, String>)
    requires
        call_ensures(render::error_kind_str, (e.error.kind,), label),
        call_ensures(render::describe_failure, (&e,), r),
        call_ensures(render::render_response, (Response::Failure(e), guidance), shown),
    ensures
        r@ == label@ + ": "@ + e.error.message@,
        shown matches Err(message) && message@ == r@,
{
}

/// A line goes to the output.
pub open spec fn goes_out(line: Line, text: Seq<char>) -> bool {
    line matches Line::Out(s) && s@ == text
}

/// A value goes to the output alone, as it came; nothing else prints one. Of a
/// claim the token alone goes to the output, of a new vault the recovery code.
pub proof fn what_goes_to_the_output(payload: OkPayload, guidance: &str, shown: Rendered)
    requires
        call_ensures(
            render::render_response,
            (Response::Success(OkBody { payload }), guidance),
            Ok(shown),
        ),
    ensures
        shown.value_b64 is Some <==> payload is Get,
        payload matches OkPayload::Get { value_b64 } ==> shown.value_b64->0@ == value_b64@
            && shown.lines@.len() == 0,
        payload matches OkPayload::Claimed { claim_token, .. } ==> shown.lines@.len() == 2
            && shown.lines@[0] is Note && goes_out(shown.lines@[1], claim_token@),
        payload matches OkPayload::VaultInitialized { recovery_code, .. } ==> shown.lines@.len()
            == 3 && shown.lines@[0] is Note && goes_out(shown.lines@[1], recovery_code@)
            && shown.lines@[2] is Note,
        payload matches OkPayload::CeremonyOpened { url, .. } ==> shown.lines@.len() == 2
            && shown.lines@[0] is Note && goes_out(shown.lines@[1], url@),
        payload matches OkPayload::List { keys, .. } ==> shown.lines@.len() == keys@.len()
            && forall|i: int|
            0 <= i < keys@.len() ==> goes_out(#[trigger] shown.lines@[i], keys@[i]@),
{
    let views = shown.lines.deep_view();
    assert(views.len() == shown.lines@.len());
    assert forall|i: int| 0 <= i < shown.lines@.len() implies views[i]
        == #[trigger] shown.lines@[i].deep_view() by {}
    if let OkPayload::List { keys, .. } = payload {
        assert(keys.deep_view().len() == keys@.len());
        assert forall|i: int| 0 <= i < keys@.len() implies goes_out(
            #[trigger] shown.lines@[i],
            keys@[i]@,
        ) by {
            assert(keys.deep_view()[i] == keys@[i]@);
            assert(views[i] == shown.lines@[i].deep_view());
        }
    } else if payload is Claimed || payload is CeremonyOpened {
        assert(views[0] == shown.lines@[0].deep_view() && views[1] == shown.lines@[1].deep_view());
    } else if payload is VaultInitialized {
        assert(views[0] == shown.lines@[0].deep_view() && views[1] == shown.lines@[1].deep_view()
            && views[2] == shown.lines@[2].deep_view());
    }
}

/// What was done is printed in one line that tells what came of it.
pub proof fn outcomes_are_printed(
    payload: OkPayload,
    guidance: &str,
    n: u64,
    number: String,
    shown: Rendered,
)
    requires
        call_ensures(
            render::render_response,
            (Response::Success(OkBody { payload }), guidance),
            Ok(shown),
        ),
        call_ensures(text::number_text, (n,), number),
    ensures
        payload is Pong ==> shown.lines@.len() == 1 && goes_out(shown.lines@[0], "pong"@),
        payload is Defined ==> shown.lines@.len() == 1 && goes_out(shown.lines@[0], "defined"@),
        payload is Unclaimed ==> shown.lines@.len() == 1 && goes_out(
            shown.lines@[0],
            "unclaimed"@,
        ),
        payload is VaultLocked ==> shown.lines@.len() == 1 && goes_out(shown.lines@[0], "locked"@),
        payload matches OkPayload::Deleted { deleted } ==> shown.lines@.len() == 1 && goes_out(
            shown.lines@[0],
            if deleted {
                "deleted"@
            } else {
                "not found"@
            },
        ),
        payload matches OkPayload::Unpinned { unpinned } ==> shown.lines@.len() == 1 && goes_out(
            shown.lines@[0],
            if unpinned {
                "unpinned"@
            } else {
                "not found"@
            },
        ),
        payload matches OkPayload::Pinned { pin_remaining_secs } ==> (n == pin_remaining_secs
            ==> goes_out(shown.lines@[0], "pinned for "@ + number@ + "s"@)),
        payload matches OkPayload::Stored { version, .. } ==> (version == Some(n) ==> goes_out(
            shown.lines@[0],
            "ok (version "@ + number@ + ")"@,
        )),
        payload matches OkPayload::GetVerified { state, .. } ==> goes_out(
            shown.lines@[0],
            "verified ("@ + state@ + "); no value (dry-run)"@,
        ),
        payload matches OkPayload::VaultUnlocked { entries_restored } ==> (n == entries_restored
            ==> goes_out(shown.lines@[0], "unlocked ("@ + number@ + " entries available)"@)),
{
    let views = shown.lines.deep_view();
    assert(views.len() == shown.lines@.len());
    if views.len() > 0 {
        assert(views[0] == shown.lines@[0].deep_view());
    }
}

/// In the view of a namespace its keys are shown by their own names and no other
/// key is shown; where all are to be shown, each is shown as it is.
pub proof fn views_show_their_own_keys(
    name: &str,
    ns: &str,
    rest: Seq<char>,
    r: Option<String>,
    all: Option<String>,
)
    requires
        call_ensures(render::display_name, (name, ns, false), r),
        call_ensures(render::display_name, (name, ns, true), all),
    ensures
        name@ == ns@ + seq!['/'] + rest <==> r.deep_view() == Some(rest),
        all.deep_view() == Some(name@),
{
    reveal_strlit("/");
    let prefix = ns@ + "/"@;
    assert(prefix =~= ns@ + seq!['/']);
    if name@ == prefix + rest {
        assert(name@.take(prefix.len() as int) =~= prefix);
        assert(name@.skip(prefix.len() as int) =~= rest);
    }
    if r is Some {
        assert(name@ =~= prefix + name@.skip(prefix.len() as int));
    }
}

/// A key is listed under the name it is shown by, and what is told behind it
/// does not take its place.
pub proof fn keys_are_listed_by_name(
    key: &str,
    entry: Option<&EntryInfo>,
    ns: &str,
    all: bool,
    name: Option<String>,
    r: Option<String>,
)
    requires
        call_ensures(render::display_name, (key, ns, all), name),
        call_ensures(render::kv_list_line, (key, entry, ns, all), r),
    ensures
        r is Some <==> name is Some,
        r matches Some(line) ==> name->0@.is_prefix_of(line@),
        r is Some && entry is None ==> r->0@ == name->0@,
        r is Some && entry is Some ==> {
            let e = *entry->0;
            let waits = e.backoff_until_secs is Some && e.backoff_until_secs->0 > 0;
            let guarded = e.guard_summary is Some && e.guard_summary->0@.len() > 0;
            !waits && !guarded <==> r->0@ == name->0@
        },
{
    if let Some(line) = r {
        let n = name->0@;
        assert(line@.take(n.len() as int) =~= n);
        if let Some(e) = entry {
            let v = e.deep_view();
            if let Some(labels) = e.guard_summary {
                assert(v.guard_summary == Some(labels.deep_view()));
                assert(labels.deep_view().len() == labels@.len());
            }
            reveal_strlit("  ");
        }
    }
}

/// What is listed is what each key alone would be listed as, in order.
pub proof fn lists_follow_their_keys(
    keys: &[String],
    entries: &[EntryInfo],
    ns: &str,
    all: bool,
    i: int,
    key: &str,
    line: Option<String>,
    r: Vec<String>,
)
    requires
        keys@.len() == entries@.len(),
        0 <= i < keys@.len(),
        key@ == keys@[i]@,
        call_ensures(render::kv_list_line, (key, Some(&entries@[i]), ns, all), line),
        call_ensures(render::render_kv_list, (keys, entries, ns, all), r),
    ensures
        line matches Some(l) ==> exists|j: int| 0 <= j < r@.len() && (#[trigger] r@[j])@ == l@,
        r@.len() <= keys@.len(),
{
    let lines = r.deep_view();
    assert(lines.len() == r@.len());
    listed_somewhere(keys.deep_view(), entries.deep_view(), ns@, all, keys@.len(), i);
    assert(keys.deep_view()[i] == keys@[i]@);
    assert(entries.deep_view()[i] == entries@[i].deep_view());
    if let Some(l) = line {
        assert(lines.contains(l@));
        let j = choose|j: int| 0 <= j < lines.len() && lines[j] == l@;
        assert(r@[j]@ == l@);
    }
}

proof fn listed_somewhere(
    keys: Seq<Seq<char>>,
    entries: Seq<EntryInfoView>,
    ns: Seq<char>,
    all: bool,
    n: nat,
    i: int,
)
    requires
        keys.len() == entries.len(),
        n <= keys.len(),
        0 <= i < n,
    ensures
        render::list_lines(keys, entries, ns, all, n).len() <= n,
        render::shown_name(keys[i], ns, all) matches Some(name) ==> render::list_lines(
            keys,
            entries,
            ns,
            all,
            n,
        ).contains(render::list_line(name, Some(entries[i]))),
    decreases n,
{
    let before = render::list_lines(keys, entries, ns, all, (n - 1) as nat);
    let now = render::list_lines(keys, entries, ns, all, n);
    if n > 1 {
        if i < n - 1 {
            listed_somewhere(keys, entries, ns, all, (n - 1) as nat, i);
            if let Some(name) = render::shown_name(keys[i], ns, all) {
                let l = render::list_line(name, Some(entries[i]));
                let j = choose|j: int| 0 <= j < before.len() && before[j] == l;
                assert(now[j] == l);
            }
        } else {
            listed_somewhere(keys, entries, ns, all, (n - 1) as nat, 0);
        }
    } else {
        assert(before.len() == 0);
    }
    if i == n - 1 {
        if let Some(name) = render::shown_name(keys[i], ns, all) {
            assert(now[now.len() - 1] == render::list_line(name, Some(entries[i])));
        }
    }
}

/// One text where it holds, none where it does not.
pub open spec fn said_where(holds: bool, text: Seq<char>) -> Seq<Seq<char>> {
    if holds {
        seq![text]
    } else {
        Seq::empty()
    }
}

/// What is said of an entry, in this order: what it is, its type, its source,
/// whether it is defined, whether it has a value, its pin, how long it is held
/// off, and its guard.
pub proof fn entries_are_described(
    e: &EntryInfo,
    pin: u64,
    pin_text: String,
    wait: u64,
    wait_text: String,
    labels: &[String],
    sep: &str,
    summary: String,
    r: Vec<String>,
)
    requires
        call_ensures(render::format_entry_attrs, (e,), r),
        e.pin_remaining_secs matches Some(n) ==> n == pin,
        call_ensures(text::number_text, (pin,), pin_text),
        e.backoff_until_secs matches Some(n) ==> n == wait,
        call_ensures(text::number_text, (wait,), wait_text),
        sep@ == ", "@,
        e.guard_summary matches Some(l) ==> labels@ == l@,
        call_ensures(text::join, (labels, sep), summary),
    ensures
        r.deep_view() == seq![
            if e.regenerable {
                "regenerable"@
            } else {
                "static"@
            },
        ] + said_where(e.value_type is Some, "type "@ + e.value_type->0@) + said_where(
            e.source is Some,
            "source "@ + e.source->0@,
        ) + said_where(e.defined, "defined"@) + seq![
            if e.has_value {
                "value present"@
            } else {
                "no value"@
            },
        ] + said_where(e.pin_remaining_secs is Some, "pinned "@ + pin_text@ + "s"@) + said_where(
            e.backoff_until_secs is Some && wait > 0,
            "backoff: "@ + wait_text@ + "s"@,
        ) + said_where(
            e.guard_summary is Some && e.guard_summary->0@.len() > 0,
            "guard: "@ + summary@,
        ),
{
    let v = e.deep_view();
    if let Some(l) = e.guard_summary {
        assert(v.guard_summary == Some(l.deep_view()));
        assert(labels.deep_view() =~= l.deep_view());
        assert(l.deep_view().len() == l@.len());
    }
    assert(render::guard_hint(v) == said_where(
        e.guard_summary is Some && e.guard_summary->0@.len() > 0,
        "guard: "@ + summary@,
    ));
    assert(render::backoff_hint(v) == said_where(
        e.backoff_until_secs is Some && wait > 0,
        "backoff: "@ + wait_text@ + "s"@,
    ));
}

/// A status gives the daemon, its socket, and a line for each entry with its
/// name, its state and what is said of it, in their order.
pub proof fn how_a_status_is_printed(
    payload: OkPayload,
    guidance: &str,
    n: u64,
    number: String,
    i: int,
    attrs: Vec<String>,
    parts: &[String],
    sep: &str,
    described: String,
    shown: Rendered,
)
    requires
        call_ensures(
            render::render_response,
            (Response::Success(OkBody { payload }), guidance),
            Ok(shown),
        ),
        payload matches OkPayload::Status { pid, entries, .. } && pid == n && (0 <= i
            < entries@.len() ==> call_ensures(
            render::format_entry_attrs,
            (&entries@[i],),
            attrs,
        )),
        call_ensures(text::number_text, (n,), number),
        parts@ == attrs@,
        sep@ == ", "@,
        call_ensures(text::join, (parts, sep), described),
    ensures
        payload matches OkPayload::Status { version, socket, entries, .. } && {
            let lines = shown.lines@;
            &&& goes_out(
                lines[0],
                "daemon: cache-warden "@ + version@ + " (pid "@ + number@ + ")"@,
            )
            &&& goes_out(lines[1], "socket: "@ + socket@)
            &&& lines.len() == 3 + entries@.len()
            &&& goes_out(
                lines[2],
                if entries@.len() == 0 {
                    "entries: (none)"@
                } else {
                    "entries:"@
                },
            )
            &&& 0 <= i < entries@.len() ==> goes_out(
                lines[3 + i],
                "  "@ + entries@[i].name@ + " ["@ + entries@[i].state@ + "] ("@ + described@ + ")"@,
            )
        },
{
    let entries = payload->Status_entries;
    let views = shown.lines.deep_view();
    let all = entries.deep_view();
    assert(views.len() == shown.lines@.len());
    assert(all.len() == entries@.len());
    assert(views[0] == shown.lines@[0].deep_view());
    assert(views[1] == shown.lines@[1].deep_view());
    assert(views[2] == shown.lines@[2].deep_view());
    if 0 <= i < entries@.len() {
        assert(parts.deep_view() =~= attrs.deep_view());
        assert(all[i] == entries@[i].deep_view());
        assert(views[3 + i] == shown.lines@[3 + i].deep_view());
        assert(render::entry_lines(all)[1 + i] == render::LineView::Out(
            render::entry_line(all[i]),
        ));
    }
}

/// A report on a batch tells how many were defined and how many were not, and
/// every one of these.
pub proof fn batches_are_counted(
    attempts: &[DefineAttempt],
    r: DefineReport,
    done: u64,
    done_text: String,
    left: u64,
    left_text: String,
)
    requires
        call_ensures(define::define_report, (attempts,), r),
        done == attempts@.filter(|a: DefineAttempt| a is Defined).len(),
        left == attempts@.len() - done,
        call_ensures(text::number_text, (done,), done_text),
        call_ensures(text::number_text, (left,), left_text),
    ensures
        r.failure is None <==> left == 0,
        r.failure matches Some(f) ==> (left_text@ + " definition(s) failed:"@).is_prefix_of(f@),
        r.line is None <==> done == 0 && left > 0,
        r.line matches Some(l) ==> l@ == "defined "@ + done_text@,
{
    counted(attempts@);
    if let Some(f) = r.failure {
        let lead = left_text@ + " definition(s) failed:"@;
        assert(f@.take(lead.len() as int) =~= lead);
    }
}

proof fn counted(attempts: Seq<DefineAttempt>)
    ensures
        define::defined_count(attempts) == attempts.filter(|a: DefineAttempt| a is Defined).len(),
    decreases attempts.len(),
{
    let is_done = |a: DefineAttempt| a is Defined;
    reveal(Seq::filter);
    if attempts.len() > 0 {
        let before = attempts.drop_last();
        counted(before);
        assert(attempts =~= before.push(attempts.last()));
        before.lemma_filter_push(attempts.last(), is_done);
    }
}

/// A failed definition is told by its message behind the others.
pub proof fn failures_are_told_in_order(
    before: &[DefineAttempt],
    attempts: &[DefineAttempt],
    message: String,
    r: DefineReport,
)
    requires
        attempts@ == before@.push(DefineAttempt::Failed(message)),
        call_ensures(define::define_report, (attempts,), r),
    ensures
        r.failure matches Some(f) && ("\n  "@ + message@).is_suffix_of(f@),
{
    define::every_attempt_counts(attempts@);
    assert(attempts@.last() == DefineAttempt::Failed(message));
    assert(!(attempts@[attempts@.len() - 1] is Defined));
    let f = r.failure->0@;
    let end = "\n  "@ + message@;
    assert(f.skip(f.len() - end.len()) =~= end);
}

/// A definition is asked for under its key and as it is: where its value comes
/// from, how long it lives and what type it has.
pub proof fn definitions_are_asked_for_whole(
    def: &KvDefinition,
    ctx_ns: &str,
    key: String,
    r: Request,
)
    requires
        call_ensures(KvDefinition::full_key, (def, ctx_ns), key),
        call_ensures(define::define_request, (def, ctx_ns), r),
    ensures
        batches::asks_for(r, def, key@),
{
    batches::definitions_are_asked_for(r, def, ctx_ns, key);
}

/// A guarded write counts as done only where the daemon names constraints that
/// it applied; a value that it stored without them is taken back.
pub proof fn guarded_writes_need_their_guard(req: &Request, resp: Response, r: AckStep)
    requires
        call_ensures(guard_ack::ack_step, (req, resp), r),
    ensures
        r is Applied <==> (resp matches Response::Success(body) && (body.payload matches
            OkPayload::Stored { guard_applied, .. } && guard_applied@.len() > 0)),
        *req is KvSet ==> (r is TakeBack <==> (resp matches Response::Success(body) && (body.payload
            matches OkPayload::Stored { guard_applied, .. } && guard_applied@.len() == 0))),
        r matches AckStep::TakeBack(key) ==> (*req matches Request::KvSet { key: k, .. } && key@
            == k@),
        resp is Failure ==> r is Failed,
{
}

/// Only a write that declares constraints has to have them named.
pub proof fn which_writes_need_their_guard(req: &Request, r: bool)
    requires
        call_ensures(guard_ack::needs_guard_ack, (req,), r),
    ensures
        r <==> (*req matches Request::KvSet { guard_constraints, .. } && guard_constraints@.len()
            > 0),
{
}

/// A line is said beside the output.
pub open spec fn is_noted(line: Line, text: Seq<char>) -> bool {
    line matches Line::Note(s) && s@ == text
}

/// What is said beside the output: of a claim its version and how long it lasts,
/// of a new vault its name and how to keep the code, of a passkey how long there
/// is to register it.
pub proof fn what_is_said_beside_the_output(
    payload: OkPayload,
    guidance: &str,
    n: u64,
    number: String,
    m: u64,
    other: String,
    shown: Rendered,
)
    requires
        call_ensures(
            render::render_response,
            (Response::Success(OkBody { payload }), guidance),
            Ok(shown),
        ),
        call_ensures(text::number_text, (n,), number),
        call_ensures(text::number_text, (m,), other),
    ensures
        payload matches OkPayload::Claimed { version, claim_expires_in_secs, .. } ==> (version == n
            && claim_expires_in_secs == m ==> is_noted(
            shown.lines@[0],
            "claimed key at version "@ + number@ + " for "@ + other@ + "s"@,
        )),
        payload matches OkPayload::VaultInitialized { vault_id, .. } ==> is_noted(
            shown.lines@[0],
            "vault "@ + vault_id@ + " created."@,
        ) && is_noted(shown.lines@[2], "\n"@ + guidance@),
        payload matches OkPayload::CeremonyOpened { expires_in_secs, .. } ==> (expires_in_secs == n
            ==> is_noted(
            shown.lines@[0],
            "open this in a browser within "@ + number@ + "s to register the passkey:"@,
        )),
        payload is Restarting ==> shown.lines@.len() == 1 && goes_out(
            shown.lines@[0],
            "restart accepted"@,
        ),
        payload matches OkPayload::Stored { version, .. } ==> shown.lines@.len() == 1 && (version
            is None ==> goes_out(shown.lines@[0], "ok"@)),
{
    let views = shown.lines.deep_view();
    assert(views.len() == shown.lines@.len());
    if views.len() > 0 {
        assert(views[0] == shown.lines@[0].deep_view());
    }
    if payload is VaultInitialized {
        assert(views[2] == shown.lines@[2].deep_view());
    }
}

/// Behind a listed name stand how long the entry is held off and its guard, each
/// after two spaces, where there is anything to say of them.
pub proof fn hints_are_listed(
    key: &str,
    e: &EntryInfo,
    ns: &str,
    all: bool,
    wait: u64,
    wait_text: String,
    labels: &[String],
    sep: &str,
    summary: String,
    name: Option<String>,
    r: Option<String>,
)
    requires
        e.backoff_until_secs matches Some(n) ==> n == wait,
        call_ensures(text::number_text, (wait,), wait_text),
        sep@ == ", "@,
        e.guard_summary matches Some(l) ==> labels@ == l@,
        call_ensures(text::join, (labels, sep), summary),
        call_ensures(render::display_name, (key, ns, all), name),
        call_ensures(render::kv_list_line, (key, Some(e), ns, all), r),
    ensures
        r matches Some(line) ==> line@ == name->0@ + (if e.backoff_until_secs is Some && wait > 0 {
            "  "@ + ("backoff: "@ + wait_text@ + "s"@)
        } else {
            Seq::empty()
        }) + (if e.guard_summary is Some && e.guard_summary->0@.len() > 0 {
            "  "@ + ("guard: "@ + summary@)
        } else {
            Seq::empty()
        }),
{
    let v = e.deep_view();
    if let Some(l) = e.guard_summary {
        assert(v.guard_summary == Some(l.deep_view()));
        assert(labels.deep_view() =~= l.deep_view());
        assert(l.deep_view().len() == l@.len());
    }
    let a = said_where(
        e.backoff_until_secs is Some && wait > 0,
        "backoff: "@ + wait_text@ + "s"@,
    );
    let b = said_where(
        e.guard_summary is Some && e.guard_summary->0@.len() > 0,
        "guard: "@ + summary@,
    );
    assert(render::backoff_hint(v) == a);
    assert(render::guard_hint(v) == b);
    let hints = a + b;
    if let Some(line) = r {
        if a.len() == 1 && b.len() == 1 {
            assert(hints.drop_last() =~= a);
            assert(text::joined(a, "  "@) == a[0]);
            assert(text::joined(hints, "  "@) == a[0] + "  "@ + b[0]);
            assert(line@ =~= name->0@ + ("  "@ + a[0]) + ("  "@ + b[0]));
        } else if a.len() == 1 {
            assert(hints =~= a);
            assert(line@ =~= name->0@ + ("  "@ + a[0]) + Seq::<char>::empty());
        } else if b.len() == 1 {
            assert(hints =~= b);
            assert(line@ =~= name->0@ + Seq::<char>::empty() + ("  "@ + b[0]));
        } else {
            assert(line@ =~= name->0@ + Seq::<char>::empty() + Seq::<char>::empty());
        }
    }
}

} // verus!
