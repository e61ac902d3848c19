//! `kv.get`: who may read an entry, and the chain of store operations that
//! leads to its value.
//!
//! A refused request asks nothing of the store, so it runs no source and
//! prompts nobody. An admitted one reads the value; where that is not possible
//! it renews the entry in the one way that its state allows, and reads again.
//! Whether the request reveals the value or only verifies it plays no part
//! before the last step, which is where a dry run leaves the value out.

use vstd::prelude::*;

use crate::daemon::guard;
use crate::daemon::guard::ProcessInfo;
use crate::daemon::handler;
use crate::daemon::otp_adapter::OtpError;
use crate::wire;
use crate::wire::{ErrorKind, OkPayload, Response};

verus! {

/// Whether an entry's guard is still to be evaluated.
#[derive(Debug, Clone, Copy, PartialEq, Eq, Structural)]
pub enum GuardCheckMode {
    /// Evaluate the guard, and refuse on any denial.
    Evaluate,
    /// The guard was evaluated and the user approved; do not evaluate it again.
    AlreadyApproved,
}

impl Default for GuardCheckMode {
    fn default() -> (r: Self)
        ensures
            r == GuardCheckMode::Evaluate,
    {
        GuardCheckMode::Evaluate
    }
}

/// The state of a stored entry.
#[derive(Debug, Clone, Copy, PartialEq, Eq, Structural)]
pub enum EntryState {
    Active,
    SoftExpired,
    HardExpired,
}

/// What is known of an entry's guard: whether it has one, whether the
/// requester's ancestry is known, the kind of the constraint that failed, if one
/// did, and the kinds of those that the requester meets.
#[derive(Debug, Clone, PartialEq, Eq)]
pub struct GuardFinding {
    pub guarded: bool,
    pub chain_known: bool,
    pub denied: Option<String>,
    pub passed: Vec<String>,
}

/// After which operation the value is read again.
#[derive(Debug, Clone, Copy, PartialEq, Eq, Structural)]
pub enum Renewal {
    Extended,
    Regenerated,
    Generated,
    /// The value was there after all.
    Resident,
}

/// What a get does next.
#[derive(Debug, Clone, PartialEq, Eq)]
pub enum GetStep {
    /// Try to read the value.
    ReadLive,
    /// The value cannot be read: look up the entry's state.
    Locate,
    /// Authenticate the requester and extend the entry's life.
    Extend,
    /// Authenticate the requester and run the entry's own source again.
    Regenerate,
    /// Authenticate the requester and run the source of the key's definition.
    Generate,
    /// Try to read the value again.
    Reread(Renewal),
    /// The value can be read: shape the reply.
    Finish,
    /// Nothing more to do.
    Reply(Response),
}

/// The entry's guard keeps the request out.
pub open spec fn guard_refuses(mode: GuardCheckMode, finding: GuardFinding) -> bool {
    mode == GuardCheckMode::Evaluate && finding.guarded && (!finding.chain_known
        || finding.denied is Some)
}

/// The names that a process policy allows, where there is one.
pub open spec fn names_of(allowed: Option<&[String]>) -> Option<Seq<Seq<char>>> {
    match allowed {
        Some(names) => Some(names.deep_view()),
        None => None,
    }
}

/// The process policy of the key keeps the requester out.
pub open spec fn policy_refuses(
    allowed: Option<Seq<Seq<char>>>,
    requester: Option<&[ProcessInfo]>,
) -> bool {
    allowed matches Some(names) && !guard::gate_passes(requester, names)
}

/// What the guard's refusal says.
pub open spec fn guard_refusal(finding: GuardFinding) -> Seq<char> {
    if !finding.chain_known {
        "access denied by entry guard (kind: missing-context)"@
    } else {
        "access denied by entry guard (kind: "@ + finding.denied->0@ + ")"@
    }
}

/// Nothing keeps the request out.
pub open spec fn get_admitted(
    key: Seq<char>,
    allowed: Option<Seq<Seq<char>>>,
    requester: Option<&[ProcessInfo]>,
    mode: GuardCheckMode,
    finding: GuardFinding,
) -> bool {
    !handler::in_reserved_namespace(key) && !policy_refuses(allowed, requester) && !guard_refuses(
        mode,
        finding,
    )
}

/// `resp` answers the first gate that keeps the request out: the reserved
/// namespace, then the process policy, then the guard.
pub open spec fn is_get_refusal(
    resp: Response,
    key: Seq<char>,
    allowed: Option<Seq<Seq<char>>>,
    requester: Option<&[ProcessInfo]>,
    finding: GuardFinding,
) -> bool {
    if handler::in_reserved_namespace(key) {
        handler::is_reserved_read(resp)
    } else if policy_refuses(allowed, requester) {
        wire::is_error(
            resp,
            ErrorKind::AuthFailed,
            "process not permitted to access this key"@,
        )
    } else {
        wire::is_error(resp, ErrorKind::AuthFailed, guard_refusal(finding))
    }
}

/// Refuse a key that callers may not read, or a requester that the key's
/// process policy keeps out.
pub fn check_read_gates(
    key: &str,
    allowed: Option<&[String]>,
    requester: Option<&[ProcessInfo]>,
) -> (r: Result<(), Response>)
    ensures
        r is Ok <==> !handler::in_reserved_namespace(key@) && !policy_refuses(
            names_of(allowed),
            requester,
        ),
        r matches Err(resp) ==> if handler::in_reserved_namespace(key@) {
            handler::is_reserved_read(resp)
        } else {
            wire::is_error(
                resp,
                ErrorKind::AuthFailed,
                "process not permitted to access this key"@,
            )
        },
{
    match handler::reject_reserved_namespace_read(key) {
        Err(resp) => {
            return Err(resp);
        },
        Ok(()) => {},
    }
    if let Some(names) = allowed {
        if !guard::chain_gate_passes(requester, names) {
            return Err(
                Response::error(ErrorKind::AuthFailed, "process not permitted to access this key"),
            );
        }
    }
    Ok(())
}

/// Refuse a requester that the entry's guard denies, or that the guard cannot
/// judge.
pub fn check_guard(finding: &GuardFinding) -> (r: Result<(), Response>)
    ensures
        r is Ok <==> !guard_refuses(GuardCheckMode::Evaluate, *finding),
        r matches Err(resp) ==> wire::is_error(
            resp,
            ErrorKind::AuthFailed,
            guard_refusal(*finding),
        ),
{
    if !finding.guarded {
        return Ok(());
    }
    if !finding.chain_known {
        return Err(
            Response::error(
                ErrorKind::AuthFailed,
                "access denied by entry guard (kind: missing-context)",
            ),
        );
    }
    match &finding.denied {
        None => Ok(()),
        Some(kind) => Err(
            Response::error(
                ErrorKind::AuthFailed,
                "access denied by entry guard (kind: ".to_owned().concat(kind.as_str()).concat(
                    ")",
                ).as_str(),
            ),
        ),
    }
}

/// The store has still something to answer before the reply is shaped.
pub open spec fn pending(step: GetStep) -> bool {
    !(step is Finish) && !(step is Reply)
}

/// How far a get is from its reply: every answer of the store brings it closer.
pub open spec fn steps_left(step: GetStep) -> nat {
    match step {
        GetStep::ReadLive => 5,
        GetStep::Locate => 4,
        GetStep::Extend => 3,
        GetStep::Regenerate => 3,
        GetStep::Generate => 3,
        GetStep::Reread(_) => 2,
        GetStep::Finish => 1,
        GetStep::Reply(_) => 0,
    }
}

/// `r` follows from trying to read the value.
pub open spec fn is_live_read(r: GetStep, readable: bool) -> bool {
    r == if readable {
        GetStep::Finish
    } else {
        GetStep::Locate
    }
}

/// After the value was tried to be read.
pub fn live_read(readable: bool) -> (r: GetStep)
    ensures
        is_live_read(r, readable),
        steps_left(r) < steps_left(GetStep::ReadLive),
{
    if readable {
        GetStep::Finish
    } else {
        GetStep::Locate
    }
}

/// `r` follows from the state of an entry that cannot be read.
pub open spec fn is_located(r: GetStep, state: Option<EntryState>, defined: bool) -> bool {
    match state {
        None => if defined {
            r is Generate
        } else {
            r matches GetStep::Reply(resp) && wire::is_error(
                resp,
                ErrorKind::NotFound,
                "no such key"@,
            )
        },
        Some(EntryState::Active) => r matches GetStep::Reply(resp) && wire::is_error(
            resp,
            ErrorKind::Internal,
            "entry state changed during read"@,
        ),
        Some(EntryState::SoftExpired) => r is Extend,
        Some(EntryState::HardExpired) => if defined {
            r is Generate
        } else {
            r is Regenerate
        },
    }
}

/// After the state of an entry that cannot be read was looked up. A definition
/// decides how a value is produced, also where the entry has a source of its
/// own.
pub fn located(state: Option<EntryState>, defined: bool) -> (r: GetStep)
    ensures
        is_located(r, state, defined),
        steps_left(r) < steps_left(GetStep::Locate),
{
    match state {
        None => if defined {
            GetStep::Generate
        } else {
            GetStep::Reply(Response::error(ErrorKind::NotFound, "no such key"))
        },
        Some(EntryState::Active) => GetStep::Reply(
            Response::error(ErrorKind::Internal, "entry state changed during read"),
        ),
        Some(EntryState::SoftExpired) => GetStep::Extend,
        Some(EntryState::HardExpired) => if defined {
            GetStep::Generate
        } else {
            GetStep::Regenerate
        },
    }
}

/// What the store said to extending an entry.
#[derive(Debug, Clone, PartialEq, Eq)]
pub enum ExtendOutcome {
    Extended,
    NotFound,
    HardExpired,
    AuthFailed(String),
    CapMismatch,
}

/// `r` follows from what the store said to extending an entry.
pub open spec fn is_extended(r: GetStep, outcome: ExtendOutcome) -> bool {
    match outcome {
        ExtendOutcome::Extended => r == GetStep::Reread(Renewal::Extended),
        ExtendOutcome::NotFound => is_failure(r, ErrorKind::NotFound, "no such key"@),
        ExtendOutcome::HardExpired => is_failure(
            r,
            ErrorKind::AuthFailed,
            "entry hard-expired during extend"@,
        ),
        ExtendOutcome::AuthFailed(e) => is_failure(r, ErrorKind::AuthFailed, e@),
        ExtendOutcome::CapMismatch => is_failure(
            r,
            ErrorKind::Internal,
            "capability mismatch"@,
        ),
    }
}

/// After an entry was to be extended.
pub fn extended(outcome: ExtendOutcome) -> (r: GetStep)
    ensures
        is_extended(r, outcome),
        steps_left(r) < steps_left(GetStep::Extend),
{
    match outcome {
        ExtendOutcome::Extended => GetStep::Reread(Renewal::Extended),
        ExtendOutcome::NotFound => failure(ErrorKind::NotFound, "no such key"),
        ExtendOutcome::HardExpired => failure(
            ErrorKind::AuthFailed,
            "entry hard-expired during extend",
        ),
        ExtendOutcome::AuthFailed(e) => failure(ErrorKind::AuthFailed, e.as_str()),
        ExtendOutcome::CapMismatch => failure(ErrorKind::Internal, "capability mismatch"),
    }
}

/// `step` ends the get with a failure.
pub open spec fn is_failure(step: GetStep, kind: ErrorKind, message: Seq<char>) -> bool {
    step matches GetStep::Reply(resp) && wire::is_error(resp, kind, message)
}

/// What a backoff is reported as.
pub open spec fn backoff_message(retry_after: Seq<char>) -> Seq<char> {
    "backoff active after previous fetch failure; retry after "@ + retry_after + "s"@
}

fn backoff_failure(retry_after: &str) -> (r: GetStep)
    ensures
        is_failure(r, ErrorKind::UpstreamFailed, backoff_message(retry_after@)),
{
    GetStep::Reply(
        Response::error(
            ErrorKind::UpstreamFailed,
            "backoff active after previous fetch failure; retry after ".to_owned().concat(
                retry_after,
            ).concat("s").as_str(),
        ),
    )
}

fn failure(kind: ErrorKind, message: &str) -> (r: GetStep)
    ensures
        is_failure(r, kind, message@),
{
    GetStep::Reply(Response::error(kind, message))
}

/// What the store said to running an entry's own source again.
#[derive(Debug, Clone, PartialEq, Eq)]
pub enum RegenerateOutcome {
    Regenerated,
    NotFound,
    /// The entry has no source that could run again.
    NotRegenerable,
    NotHardExpired,
    RunFailed(String),
    AuthFailed(String),
    /// An earlier failure still holds off another run; the text says for how
    /// many seconds.
    Backoff { retry_after: String },
    CapMismatch,
}

/// `r` follows from what the store said to running an entry's own source again.
pub open spec fn is_regenerated(r: GetStep, outcome: RegenerateOutcome) -> bool {
    match outcome {
        RegenerateOutcome::Regenerated => r == GetStep::Reread(Renewal::Regenerated),
        RegenerateOutcome::NotFound => is_failure(r, ErrorKind::NotFound, "no such key"@),
        RegenerateOutcome::NotRegenerable => is_failure(
            r,
            ErrorKind::NotRegenerable,
            "static entry hard-expired; re-set it instead"@,
        ),
        RegenerateOutcome::NotHardExpired => is_failure(
            r,
            ErrorKind::Internal,
            "entry not hard-expired during regenerate"@,
        ),
        RegenerateOutcome::RunFailed(e) => is_failure(r, ErrorKind::UpstreamFailed, e@),
        RegenerateOutcome::AuthFailed(e) => is_failure(r, ErrorKind::AuthFailed, e@),
        RegenerateOutcome::Backoff { retry_after } => is_failure(
            r,
            ErrorKind::UpstreamFailed,
            backoff_message(retry_after@),
        ),
        RegenerateOutcome::CapMismatch => is_failure(
            r,
            ErrorKind::Internal,
            "capability mismatch"@,
        ),
    }
}

/// After an entry's own source was to run again.
pub fn regenerated(outcome: RegenerateOutcome) -> (r: GetStep)
    ensures
        is_regenerated(r, outcome),
        steps_left(r) < steps_left(GetStep::Regenerate),
{
    match outcome {
        RegenerateOutcome::Regenerated => GetStep::Reread(Renewal::Regenerated),
        RegenerateOutcome::NotFound => failure(ErrorKind::NotFound, "no such key"),
        RegenerateOutcome::NotRegenerable => failure(
            ErrorKind::NotRegenerable,
            "static entry hard-expired; re-set it instead",
        ),
        RegenerateOutcome::NotHardExpired => failure(
            ErrorKind::Internal,
            "entry not hard-expired during regenerate",
        ),
        RegenerateOutcome::RunFailed(e) => failure(ErrorKind::UpstreamFailed, e.as_str()),
        RegenerateOutcome::AuthFailed(e) => failure(ErrorKind::AuthFailed, e.as_str()),
        RegenerateOutcome::Backoff { retry_after } => backoff_failure(retry_after.as_str()),
        RegenerateOutcome::CapMismatch => failure(ErrorKind::Internal, "capability mismatch"),
    }
}

/// What the store said to running the source of a key's definition.
#[derive(Debug, Clone, PartialEq, Eq)]
pub enum RegenerateDefOutcome {
    Generated,
    Undefined,
    /// A usable value is in place already.
    ValueResident,
    RunFailed(String),
    AuthFailed(String),
    /// An earlier failure still holds off another run; the text says for how
    /// many seconds.
    Backoff { retry_after: String },
    CapMismatch,
}

/// `r` follows from what the store said to running the source of a definition.
pub open spec fn is_generated(r: GetStep, outcome: RegenerateDefOutcome) -> bool {
    match outcome {
        RegenerateDefOutcome::Generated => r == GetStep::Reread(Renewal::Generated),
        RegenerateDefOutcome::Undefined => is_failure(r, ErrorKind::NotFound, "no such key"@),
        RegenerateDefOutcome::ValueResident => r == GetStep::Reread(Renewal::Resident),
        RegenerateDefOutcome::RunFailed(e) => is_failure(r, ErrorKind::UpstreamFailed, e@),
        RegenerateDefOutcome::AuthFailed(e) => is_failure(r, ErrorKind::AuthFailed, e@),
        RegenerateDefOutcome::Backoff { retry_after } => is_failure(
            r,
            ErrorKind::UpstreamFailed,
            backoff_message(retry_after@),
        ),
        RegenerateDefOutcome::CapMismatch => is_failure(
            r,
            ErrorKind::Internal,
            "capability mismatch"@,
        ),
    }
}

/// After the source of the key's definition was to run.
pub fn lazy_generated(outcome: RegenerateDefOutcome) -> (r: GetStep)
    ensures
        is_generated(r, outcome),
        steps_left(r) < steps_left(GetStep::Generate),
{
    match outcome {
        RegenerateDefOutcome::Generated => GetStep::Reread(Renewal::Generated),
        RegenerateDefOutcome::Undefined => failure(ErrorKind::NotFound, "no such key"),
        RegenerateDefOutcome::ValueResident => GetStep::Reread(Renewal::Resident),
        RegenerateDefOutcome::RunFailed(e) => failure(ErrorKind::UpstreamFailed, e.as_str()),
        RegenerateDefOutcome::AuthFailed(e) => failure(ErrorKind::AuthFailed, e.as_str()),
        RegenerateDefOutcome::Backoff { retry_after } => backoff_failure(retry_after.as_str()),
        RegenerateDefOutcome::CapMismatch => failure(ErrorKind::Internal, "capability mismatch"),
    }
}

/// What is reported where a value that was renewed cannot be read.
pub open spec fn gone_message(renewal: Renewal) -> Seq<char> {
    match renewal {
        Renewal::Extended => "value gone after extend"@,
        Renewal::Regenerated => "value gone after regenerate"@,
        Renewal::Generated => "value gone after lazy generation"@,
        Renewal::Resident => "value resident but unreadable"@,
    }
}

/// `r` follows from reading the value again.
pub open spec fn is_reread(r: GetStep, renewal: Renewal, readable: bool) -> bool {
    if readable {
        r is Finish
    } else {
        is_failure(r, ErrorKind::Internal, gone_message(renewal))
    }
}

/// After the value was tried to be read again.
pub fn reread(renewal: Renewal, readable: bool) -> (r: GetStep)
    ensures
        is_reread(r, renewal, readable),
        steps_left(r) < steps_left(GetStep::Reread(renewal)),
{
    if readable {
        return GetStep::Finish;
    }
    let message = match renewal {
        Renewal::Extended => "value gone after extend",
        Renewal::Regenerated => "value gone after regenerate",
        Renewal::Generated => "value gone after lazy generation",
        Renewal::Resident => "value resident but unreadable",
    };
    GetStep::Reply(Response::error(ErrorKind::Internal, message))
}

/// How the reply to a get whose value can be read is made.
#[derive(Debug, Clone, Copy, PartialEq, Eq, Structural)]
pub enum FinishStep {
    /// Derive the one-time code from the stored seed.
    DeriveCode,
    /// Make sure that the value can be read, without exposing it.
    CheckValue,
    /// Read the value.
    ReadValue,
}

/// The last step of a get.
pub open spec fn finish_step(is_otp: bool, dry_run: bool) -> FinishStep {
    if is_otp {
        FinishStep::DeriveCode
    } else if dry_run {
        FinishStep::CheckValue
    } else {
        FinishStep::ReadValue
    }
}

/// The last step of a get: an otp-typed key yields a code and never its seed;
/// any other yields its value, which a dry run does not expose.
pub fn finish_get(is_otp: bool, dry_run: bool) -> (r: FinishStep)
    ensures
        r == finish_step(is_otp, dry_run),
{
    if is_otp {
        FinishStep::DeriveCode
    } else if dry_run {
        FinishStep::CheckValue
    } else {
        FinishStep::ReadValue
    }
}

/// `r` is the reply of a get on an otp-typed key whose derived code is `code`.
pub open spec fn is_code_reply(r: Response, dry_run: bool, code: Result<String, OtpError>) -> bool {
    match code {
        Ok(c) => if dry_run {
            wire::is_verified(r, "active"@)
        } else {
            wire::is_ok(r, (OkPayload::Get { value_b64: c }))
        },
        Err(OtpError::Cap) => wire::is_error(r, ErrorKind::Internal, "internal cap mismatch"@),
        Err(OtpError::NoValue) => wire::is_error(
            r,
            ErrorKind::Internal,
            "value gone before otp derive"@,
        ),
        Err(OtpError::Derive(e)) => wire::is_error(r, ErrorKind::BadRequest, e@),
    }
}

/// The reply of a get on an otp-typed key, where `code` is the derived code in
/// base64.
pub fn finish_code(dry_run: bool, code: Result<String, OtpError>) -> (r: Response)
    ensures
        is_code_reply(r, dry_run, code),
        dry_run ==> !wire::carries_value(r),
{
    match code {
        Ok(c) => if dry_run {
            Response::get_verified("active")
        } else {
            Response::get(c)
        },
        Err(OtpError::Cap) => Response::error(ErrorKind::Internal, "internal cap mismatch"),
        Err(OtpError::NoValue) => Response::error(
            ErrorKind::Internal,
            "value gone before otp derive",
        ),
        Err(OtpError::Derive(e)) => Response::error(ErrorKind::BadRequest, e.as_str()),
    }
}

/// `r` is the reply of a dry run on an opaque value.
pub open spec fn is_check_reply(r: Response, readable: bool) -> bool {
    if readable {
        wire::is_verified(r, "active"@)
    } else {
        wire::is_error(r, ErrorKind::Internal, "value gone before finish_get"@)
    }
}

/// The reply of a dry run on an opaque value.
pub fn finish_check(readable: bool) -> (r: Response)
    ensures
        is_check_reply(r, readable),
        !wire::carries_value(r),
{
    if readable {
        Response::get_verified("active")
    } else {
        Response::error(ErrorKind::Internal, "value gone before finish_get")
    }
}

/// `r` is the reply that reveals an opaque value, given in base64.
pub open spec fn is_value_reply(r: Response, value_b64: Option<String>) -> bool {
    match value_b64 {
        Some(v) => wire::is_ok(r, (OkPayload::Get { value_b64: v })),
        None => wire::is_error(r, ErrorKind::Internal, "value gone before finish_get"@),
    }
}

/// The reply that reveals an opaque value, given in base64.
pub fn finish_value(value_b64: Option<String>) -> (r: Response)
    ensures
        is_value_reply(r, value_b64),
{
    match value_b64 {
        Some(v) => Response::get(v),
        None => Response::error(ErrorKind::Internal, "value gone before finish_get"),
    }
}

/// Each of `steps` is closer to the reply than the one before it.
pub open spec fn come_closer(steps: Seq<GetStep>) -> bool {
    forall|i: int, j: int|
        0 <= i < j < steps.len() ==> steps_left(#[trigger] steps[j]) < steps_left(
            #[trigger] steps[i],
        )
}

/// The step authenticates the requester, or runs a source.
pub open spec fn renews(step: GetStep) -> bool {
    step is Extend || step is Regenerate || step is Generate
}

/// A get asks for a renewal at most once, and comes to its end after at most
/// five steps.
pub proof fn a_get_renews_at_most_once(steps: Seq<GetStep>)
    requires
        come_closer(steps),
    ensures
        steps.len() <= 6,
        forall|i: int, j: int|
            0 <= i < j < steps.len() && renews(#[trigger] steps[i]) ==> !renews(
                #[trigger] steps[j],
            ),
{
    if steps.len() > 6 {
        assert(steps_left(steps[0]) <= 5);
        assert(steps_left(steps[1]) < steps_left(steps[0]));
        assert(steps_left(steps[2]) < steps_left(steps[1]));
        assert(steps_left(steps[3]) < steps_left(steps[2]));
        assert(steps_left(steps[4]) < steps_left(steps[3]));
        assert(steps_left(steps[5]) < steps_left(steps[4]));
        assert(steps_left(steps[6]) < steps_left(steps[5]));
    }
}

/// The value of an entry is given out only to a request that reveals it, and
/// never that of an otp-typed key, whose seed stays where it is.
pub proof fn values_are_given_out_only_to_reveal_them(is_otp: bool, dry_run: bool)
    ensures
        finish_step(is_otp, dry_run) == FinishStep::ReadValue <==> !is_otp && !dry_run,
{
}

} // verus!
