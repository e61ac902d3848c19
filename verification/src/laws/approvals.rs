//! Laws of asking the user, of owners and of what the system is asked for.

use vstd::prelude::*;

use crate::daemon::approval;
use crate::daemon::approval::{
    ApprovalOutcome, ApproverState, DialogAnswer, Dispatch, FirstPass, WaitStep,
};
use crate::daemon::get;
use crate::daemon::get::{GuardCheckMode, GuardFinding};
use crate::daemon::guard::ProcessInfo;
use crate::daemon::owner_eval::{CodeSignatureVerifier, Hardening, OwnerDenied, SignatureCheck};
use crate::fda;
use crate::fda::{KvEntryConfig, SourcesConfig};
use crate::path;
use crate::text;
use crate::wire::{ErrorKind, Request, Response};

verus! {

/// Only the user's own yes lets a request go on; whatever else came of asking
/// refuses it.
pub proof fn only_a_yes_is_a_yes(
    helper: Option<Result<DialogAnswer, String>>,
    outcome: ApprovalOutcome,
    r: Result<(), Response>,
)
    requires
        call_ensures(approval::dialog_outcome, (helper,), outcome),
        call_ensures(approval::approval_result, (&outcome,), r),
    ensures
        r is Ok <==> (helper matches Some(Ok(DialogAnswer::Approved))),
        r matches Err(resp) ==> (resp matches Response::Failure(body) && body.error.kind
            == ErrorKind::AuthFailed),
{
}

/// A helper that is ready is asked, one that is starting is waited for until the
/// time is up, and one that is down is not.
pub proof fn when_the_helper_is_asked(state: ApproverState, expired: bool, r: WaitStep)
    requires
        call_ensures(approval::wait_ready, (state, expired), r),
    ensures
        r == WaitStep::Ask <==> state == ApproverState::Ready,
        r == WaitStep::Wait <==> state == ApproverState::Starting && !expired,
{
}

/// The dialog is told to close before the daemon stops waiting for it.
pub proof fn the_daemon_outwaits_the_dialog()
    ensures
        approval::APPROVER_WIRE_TIMEOUT_SECS < approval::APPROVER_REQUEST_TIMEOUT_SECS,
        approval::HELPER_STARTING_WAIT_SECS < approval::APPROVER_WIRE_TIMEOUT_SECS,
        approval::APPROVER_WIRE_TIMEOUT_SECS == 60,
        approval::APPROVER_REQUEST_TIMEOUT_SECS == 90,
        approval::HELPER_STARTING_WAIT_SECS == 5,
{
}

/// A get that reveals a value may need the user; nothing else does. A ping needs
/// no store. The definitions are written down after a request that changes them.
pub proof fn which_requests_may_need_the_user(req: &Request, r: Dispatch)
    requires
        call_ensures(approval::dispatch_request, (req,), r),
    ensures
        r is GuardedGet <==> (*req matches Request::KvGet { dry_run, .. } && !dry_run),
        r matches Dispatch::GuardedGet { key } ==> key@ == req->KvGet_key@,
        r is Reply <==> *req is Ping,
        r is Restart <==> *req is RestartGraceful,
        r matches Dispatch::Reply(resp) ==> (resp matches Response::Success(body) && body.payload
            is Pong),
        r matches Dispatch::Handle { persist } ==> (persist <==> *req is KvDefine || (*req matches
            Request::KvDel { with_define, .. } && with_define)),
{
}

/// Definitions are written down exactly after a request that changed them.
pub proof fn when_definitions_are_written_down(req: &Request, resp: &Response, r: bool)
    requires
        call_ensures(approval::persist_needed, (req, resp), r),
    ensures
        r <==> *resp is Success && (*req is KvDefine || (*req matches Request::KvDel {
            with_define,
            ..
        } && with_define)),
{
}

/// A definition that could not be written down is reported, and no other change
/// is made to the reply.
pub proof fn a_failed_write_down_is_reported(
    reply: Response,
    persisted: Result<(), String>,
    r: Response,
)
    requires
        call_ensures(approval::persisted_reply, (reply, persisted), r),
    ensures
        persisted is Ok ==> r == reply,
        persisted is Err ==> (r matches Response::Failure(body) && body.error.kind
            == ErrorKind::Internal),
{
}

/// The user is asked about a guarded value exactly where nothing else keeps the
/// requester out; an entry without a guard is not asked about.
pub proof fn what_the_user_is_asked_about(
    key: &str,
    allowed: Option<&[String]>,
    requester: Option<&[ProcessInfo]>,
    finding: &GuardFinding,
    gates: Result<(), Response>,
    guard: Result<(), Response>,
    r: FirstPass,
)
    requires
        call_ensures(get::check_read_gates, (key, allowed, requester), gates),
        call_ensures(get::check_guard, (finding,), guard),
        call_ensures(approval::first_pass, (key, allowed, requester, finding), r),
    ensures
        r is RunHandler <==> !finding.guarded,
        r is AskUser <==> finding.guarded && gates is Ok && guard is Ok,
        r matches FirstPass::Refuse(resp) ==> resp is Failure,
{
}

/// After the user said yes the guard is held against the requester once more;
/// whom it denies by then is refused.
pub proof fn a_yes_does_not_outlive_the_guard(
    finding: &GuardFinding,
    r: Result<GuardCheckMode, Response>,
)
    requires
        call_ensures(approval::finalize_after_approval, (finding,), r),
    ensures
        r is Ok <==> !finding.guarded || (finding.chain_known && finding.denied is None),
        r matches Ok(mode) ==> mode == GuardCheckMode::AlreadyApproved,
        r matches Err(resp) ==> (resp matches Response::Failure(body) && body.error.kind
            == ErrorKind::AuthFailed),
{
}

/// A helper that was named is preferred to the installed one; neither is started
/// that is not a file.
pub proof fn which_helper_is_started(
    explicit: Option<String>,
    explicit_is_file: bool,
    installed_is_file: bool,
    r: Option<String>,
)
    requires
        call_ensures(
            approval::approver_helper_path,
            (explicit, explicit_is_file, installed_is_file),
            r,
        ),
    ensures
        explicit matches Some(p) ==> (explicit_is_file ==> r.deep_view() == Some(p@)),
        r is None <==> !(explicit is Some && explicit_is_file) && !installed_is_file,
{
}

/// A caller is the owner only where the system can tell, was asked about a
/// process, and said so.
pub proof fn owners_are_told_by_their_signature(
    verifier: CodeSignatureVerifier,
    supported: bool,
    check: Option<SignatureCheck>,
    r: Result<(), OwnerDenied>,
)
    requires
        call_ensures(CodeSignatureVerifier::satisfies, (&verifier, supported, check), r),
    ensures
        r is Ok <==> supported && (check matches Some(c) && c is Satisfied),
        r matches Err(e) ==> (e is Unsupported <==> !supported) && (e is NoPeerToken <==> supported
            && check is None),
{
}

/// The two bits of a process's signing flags that say it is hardened, and when
/// it is warned of.
pub proof fn hardening_by_its_bits(flags: u32, r: Option<Hardening>, unread: Option<Hardening>)
    requires
        call_ensures(Hardening::of, (Some(flags),), r),
        call_ensures(Hardening::of, (None::<u32>,), unread),
    ensures
        unread is None,
        r matches Some(h) && (h.runtime <==> (flags / 65536) % 2 == 1) && (h.library_validation <==> (
        flags / 8192) % 2 == 1),
{
    assert((flags & 0x0001_0000 != 0) <==> (flags / 65536) % 2 == 1) by (bit_vector);
    assert((flags & 0x0000_2000 != 0) <==> (flags / 8192) % 2 == 1) by (bit_vector);
}

/// A process that is hardened both ways is not warned of, and every other is.
pub proof fn who_is_warned_of(h: &Hardening, r: Option<&'static str>)
    requires
        call_ensures(Hardening::warning, (h,), r),
    ensures
        r is None <==> h.runtime && h.library_validation,
{
}

/// Full Disk Access is needed exactly where something of the configuration can
/// come to run `op`: a source of that kind, a command of that base name, or an
/// agent socket's source.
pub proof fn when_op_can_run(config: &SourcesConfig, r: bool)
    requires
        call_ensures(fda::has_op_sources, (config,), r),
    ensures
        r <==> (exists|i: int|
            0 <= i < config.kv@.len() && ((#[trigger] config.kv@[i]).source matches Some(kind) && (
            kind@ == "op"@ || (kind@ == "command"@ && (config.kv@[i].command_argv matches Some(
                argv,
            ) && argv@.len() > 0 && path::last_name(argv@[0]@) == Some("op"@)))))) || (exists|
            i: int,
        |
            0 <= i < config.authsock_source_kinds@.len() && (
            #[trigger] config.authsock_source_kinds@[i])@ == "op"@),
{
    let kinds = config.authsock_source_kinds.deep_view();
    if kinds.contains("op"@) {
        let i = choose|i: int| 0 <= i < kinds.len() && kinds[i] == "op"@;
        assert(config.authsock_source_kinds@[i]@ == "op"@);
    }
    if exists|i: int|
        0 <= i < config.authsock_source_kinds@.len() && (
        #[trigger] config.authsock_source_kinds@[i])@ == "op"@ {
        let i = choose|i: int|
            0 <= i < config.authsock_source_kinds@.len() && (
            #[trigger] config.authsock_source_kinds@[i])@ == "op"@;
        assert(kinds[i] == "op"@);
    }
}

/// Each outcome of asking is told by its own words.
pub proof fn outcomes_by_name(outcome: &ApprovalOutcome, r: &'static str)
    requires
        call_ensures(ApprovalOutcome::label, (outcome,), r),
    ensures
        *outcome is Approved ==> r@ == "approved"@,
        *outcome is HelperUnavailable ==> r@ == "approver helper unavailable"@,
        *outcome is Denied ==> r@ == "approval denied by user"@,
        *outcome is Cancelled ==> r@ == "approval cancelled"@,
        *outcome is Timeout ==> r@ == "approval timed out"@,
        *outcome is PeerGone ==> r@ == "requesting process exited before approval"@,
        *outcome is BiometricFailed ==> r@ == "biometric authentication failed"@,
        *outcome is Ipc ==> r@ == "approver dialog failed"@,
{
}

/// A request that does not read is the sender's fault; a lock that was lost and
/// a handler that broke off are the daemon's own.
pub proof fn whose_fault_it_is(
    e: &str,
    malformed: Response,
    poisoned: Response,
    panicked: Response,
)
    requires
        call_ensures(approval::malformed_reply, (e,), malformed),
        call_ensures(approval::poisoned_reply, (), poisoned),
        call_ensures(approval::panicked_reply, (e,), panicked),
    ensures
        malformed matches Response::Failure(b) && b.error.kind == ErrorKind::BadRequest
            && e@.is_suffix_of(b.error.message@),
        poisoned matches Response::Failure(b) && b.error.kind == ErrorKind::Internal,
        panicked matches Response::Failure(b) && b.error.kind == ErrorKind::Internal
            && e@.is_suffix_of(b.error.message@),
{
    let a = malformed->Failure_0.error.message@;
    let b = panicked->Failure_0.error.message@;
    assert(a.skip(a.len() - e@.len()) =~= e@);
    assert(b.skip(b.len() - e@.len()) =~= e@);
}

/// Two requests to the helper never have the same name, be they of one daemon or
/// of two.
pub proof fn requests_to_the_helper_differ(
    pid: u32,
    n: u64,
    other: u32,
    m: u64,
    r: String,
    s: String,
)
    requires
        call_ensures(approval::approver_request_id, (pid, n), r),
        call_ensures(approval::approver_request_id, (other, m), s),
        r@ == s@,
    ensures
        pid == other,
        n == m,
{
    reveal_strlit("-");
    assert("-"@ =~= seq!['-']);
    text::decimal_reads_back(pid as nat);
    text::decimal_reads_back(other as nat);
    text::decimal_reads_back(n as nat);
    text::decimal_reads_back(m as nat);
    let (a, b) = (text::decimal(pid as nat), text::decimal(other as nat));
    let (c, d) = (text::decimal(n as nat), text::decimal(m as nat));
    assert(r@ =~= a + seq!['-'] + c);
    assert(s@ =~= b + seq!['-'] + d);
    if a.len() < b.len() {
        assert(r@[a.len() as int] == '-');
        assert(s@[a.len() as int] == b[a.len() as int]);
    } else if b.len() < a.len() {
        assert(s@[b.len() as int] == '-');
        assert(r@[b.len() as int] == a[b.len() as int]);
    }
    assert(a =~= r@.take(a.len() as int));
    assert(b =~= s@.take(a.len() as int));
    assert(c =~= r@.skip(a.len() as int + 1));
    assert(d =~= s@.skip(a.len() as int + 1));
}

/// An entry runs `op` where its source is a command whose program goes by that
/// name, wherever it is installed.
pub proof fn which_commands_run_op(
    entry: &KvEntryConfig,
    program: &str,
    name: Option<String>,
    r: bool,
)
    requires
        entry.command_argv matches Some(argv) ==> argv@.len() > 0 ==> program@ == argv@[0]@,
        call_ensures(path::file_name, (program,), name),
        call_ensures(fda::command_source_runs_op, (entry,), r),
    ensures
        r <==> entry.source is Some && entry.source->0@ == "command"@ && entry.command_argv is Some
            && entry.command_argv->0@.len() > 0 && name is Some && name->0@ == "op"@,
{
}

/// A refusal after asking says what came of it.
pub proof fn refusals_say_what_came_of_asking(
    outcome: ApprovalOutcome,
    label: &'static str,
    r: Response,
)
    requires
        call_ensures(ApprovalOutcome::label, (&outcome,), label),
        call_ensures(approval::approval_result, (&outcome,), Err(r)),
    ensures
        r matches Response::Failure(body) && label@.is_prefix_of(body.error.message@),
        outcome matches ApprovalOutcome::Ipc(e) ==> e@.is_suffix_of(
            r->Failure_0.error.message@,
        ),
        !(outcome is Ipc) && !(outcome is HelperUnavailable) ==> r->Failure_0.error.message@
            == label@,
{
    let m = r->Failure_0.error.message@;
    reveal_strlit("approver helper unavailable");
    reveal_strlit("approver helper unavailable (helper is not running)");
    reveal_strlit("approver dialog failed");
    reveal_strlit("approver dialog failed: ");
    assert(m.take(label@.len() as int) =~= label@);
    if let ApprovalOutcome::Ipc(e) = outcome {
        assert(m.skip(m.len() - e@.len()) =~= e@);
    }
}

} // verus!
