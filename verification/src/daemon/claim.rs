//! Refresh claims: the arbitration between callers that refresh one key.
//!
//! A claim is held by a token and lapses on its own. While it is active, only
//! its holder may write the key or release the claim.

use vstd::prelude::*;

use crate::daemon::handler;
use crate::text;
use crate::wire;
use crate::wire::{ErrorKind, OkPayload, Response};

verus! {

/// The longest claim that is granted, in seconds.
pub const MAX_CLAIM_SECS: u64 = 3600;

/// A key's claim while it is active: its token, where the stored text still is
/// one, and the time it has left.
#[derive(Debug, Clone, PartialEq, Eq)]
pub struct ActiveClaim {
    pub token: Option<String>,
    pub remaining_ms: u64,
}

/// The claim token that a caller brought.
#[derive(Debug, Clone, PartialEq, Eq)]
pub enum Ticket {
    Missing,
    /// A text that is no claim token.
    Malformed,
    Token(String),
}

/// A claim to record: when it was taken and when it lapses, in milliseconds
/// since the Unix epoch.
#[derive(Debug, Clone, Copy, PartialEq, Eq, Structural)]
pub struct ClaimGrant {
    pub taken_at_ms: u64,
    pub expires_at_ms: u64,
}

/// Whole seconds that cover `ms` milliseconds.
pub open spec fn covering_secs(ms: nat) -> nat {
    (ms + 999) / 1000
}

/// Whole seconds that cover `ms` milliseconds.
pub fn ms_to_covering_secs(ms: u64) -> (r: u64)
    ensures
        r == covering_secs(ms as nat),
{
    if ms % 1000 == 0 {
        ms / 1000
    } else {
        ms / 1000 + 1
    }
}

/// Whether the ticket is the token that holds the claim.
pub open spec fn holds(claim: ActiveClaim, ticket: Ticket) -> bool {
    claim.token matches Some(held) && (ticket matches Ticket::Token(t) && t@ == held@)
}

/// Whether the ticket is the token that holds the claim. A stored text that is
/// no token is matched by nothing.
pub fn claim_token_matches(claim: &ActiveClaim, ticket: &Ticket) -> (r: bool)
    ensures
        r == holds(*claim, *ticket),
{
    match (&claim.token, ticket) {
        (Some(held), Ticket::Token(t)) => text::same_text(t.as_str(), held.as_str()),
        _ => false,
    }
}

/// Whether a write with this ticket is let through: an active claim demands its
/// own token, a lapsed one demands nothing.
pub open spec fn fence_opens(active: Option<ActiveClaim>, ticket: Ticket) -> bool {
    active matches Some(claim) ==> holds(claim, ticket)
}

/// Refuse a write that an active claim does not let through.
pub fn check_claim_fence(active: &Option<ActiveClaim>, ticket: &Ticket) -> (r: Result<(), Response>)
    ensures
        r is Ok <==> fence_opens(*active, *ticket),
        r matches Err(resp) ==> wire::is_error(
            resp,
            ErrorKind::ClaimTokenMismatch,
            if ticket is Missing {
                "a refresh is already in progress for this key; wait for it to finish, or pass the token from your own `kv claim`"@
            } else {
                "this claim token is no longer the one holding the key: the claim lapsed and another caller took over. Re-read the key and claim again"@
            },
        ),
{
    match active {
        None => Ok(()),
        Some(claim) => {
            if claim_token_matches(claim, ticket) {
                Ok(())
            } else {
                match ticket {
                    Ticket::Missing => Err(
                        Response::error(
                            ErrorKind::ClaimTokenMismatch,
                            "a refresh is already in progress for this key; wait for it to finish, or pass the token from your own `kv claim`",
                        ),
                    ),
                    _ => Err(
                        Response::error(
                            ErrorKind::ClaimTokenMismatch,
                            "this claim token is no longer the one holding the key: the claim lapsed and another caller took over. Re-read the key and claim again",
                        ),
                    ),
                }
            }
        },
    }
}

/// Whether a claim may last `secs` seconds.
pub open spec fn valid_duration(secs: u64) -> bool {
    1 <= secs <= MAX_CLAIM_SECS
}

/// When a claim of `secs` seconds taken at `now_ms` lapses; the end of time
/// where that is out of range.
pub open spec fn lapse(now_ms: u64, secs: u64) -> u64 {
    if now_ms + secs * 1000 > u64::MAX {
        u64::MAX
    } else {
        (now_ms + secs * 1000) as u64
    }
}

/// The claim passes every check.
pub open spec fn claim_admitted(
    key: Seq<char>,
    has_value: bool,
    current_version: u64,
    expected_version: u64,
    duration_secs: u64,
    active: Option<ActiveClaim>,
) -> bool {
    handler::is_protocol_key(key) && has_value && valid_duration(duration_secs) && current_version
        == expected_version && active is None
}

/// `resp` answers the first check that the claim does not pass.
pub open spec fn is_claim_refusal(
    resp: Response,
    key: Seq<char>,
    has_value: bool,
    current_version: u64,
    expected_version: u64,
    duration_secs: u64,
    active: Option<ActiveClaim>,
) -> bool {
    if !handler::is_protocol_key(key) {
        handler::is_bad_key(resp, key)
    } else if !has_value {
        wire::is_error(resp, ErrorKind::NotFound, "no value stored for this key"@)
    } else if !valid_duration(duration_secs) {
        wire::is_error(
            resp,
            ErrorKind::BadRequest,
            "claim duration must be between 1 and 3600 seconds (a claim that outlives the caller has to expire for the key to be reclaimed)"@,
        )
    } else if current_version != expected_version {
        wire::is_cas_mismatch(resp, current_version)
    } else {
        wire::is_already_claimed(resp, covering_secs(active->0.remaining_ms as nat) as u64)
    }
}

/// `r` is the reply to a `kv.claim` that the store was asked to record under
/// `token`.
pub open spec fn is_claim_reply(
    r: Response,
    recorded: bool,
    version: u64,
    token: String,
    duration_secs: u64,
) -> bool {
    if recorded {
        wire::is_ok(
            r,
            (OkPayload::Claimed {
                version,
                claim_token: token,
                claim_expires_in_secs: duration_secs,
            }),
        )
    } else {
        wire::is_error(r, ErrorKind::Internal, "capability mismatch (claim)"@)
    }
}

/// Decide a `kv.claim`: the claim to record, or the refusal.
///
/// The key must be well formed and hold a value, the duration must be in range,
/// the caller must know the current version, and nobody else may hold the key;
/// the first of these that fails is answered.
pub fn plan_claim(
    key: &str,
    has_value: bool,
    current_version: u64,
    expected_version: u64,
    duration_secs: u64,
    active: &Option<ActiveClaim>,
    now_ms: u64,
) -> (r: Result<ClaimGrant, Response>)
    ensures
        r is Ok <==> claim_admitted(
            key@,
            has_value,
            current_version,
            expected_version,
            duration_secs,
            *active,
        ),
        r matches Ok(grant) ==> grant.taken_at_ms == now_ms && grant.expires_at_ms == lapse(
            now_ms,
            duration_secs,
        ),
        r matches Err(resp) ==> is_claim_refusal(
            resp,
            key@,
            has_value,
            current_version,
            expected_version,
            duration_secs,
            *active,
        ),
{
    match handler::validate_protocol_key(key) {
        Err(resp) => {
            return Err(resp);
        },
        Ok(()) => {},
    }
    if !has_value {
        return Err(Response::error(ErrorKind::NotFound, "no value stored for this key"));
    }
    if duration_secs == 0 || duration_secs > MAX_CLAIM_SECS {
        return Err(
            Response::error(
                ErrorKind::BadRequest,
                "claim duration must be between 1 and 3600 seconds (a claim that outlives the caller has to expire for the key to be reclaimed)",
            ),
        );
    }
    if current_version != expected_version {
        return Err(Response::cas_mismatch(current_version));
    }
    if let Some(claim) = active {
        return Err(Response::already_claimed(ms_to_covering_secs(claim.remaining_ms)));
    }
    let expires_at_ms: u64 = now_ms.saturating_add(duration_secs * 1000);
    Ok(ClaimGrant { taken_at_ms: now_ms, expires_at_ms })
}

/// The reply to a `kv.claim`, once the store was asked to record the claim
/// under `token`.
pub fn claim_recorded(recorded: bool, version: u64, token: String, duration_secs: u64) -> (r:
    Response)
    ensures
        is_claim_reply(r, recorded, version, token, duration_secs),
{
    if recorded {
        Response::claimed_ack(version, token, duration_secs)
    } else {
        Response::error(ErrorKind::Internal, "capability mismatch (claim)")
    }
}

/// `resp` refuses a `kv.unclaim`.
pub open spec fn is_unclaim_refusal(resp: Response, key: Seq<char>) -> bool {
    if !handler::is_protocol_key(key) {
        handler::is_bad_key(resp, key)
    } else {
        wire::is_error(
            resp,
            ErrorKind::ClaimTokenMismatch,
            "this claim token is no longer the one holding the key, so releasing it would cancel someone else's refresh"@,
        )
    }
}

/// `r` is the reply to a `kv.unclaim` once the store was asked to clear the
/// claim.
pub open spec fn is_unclaim_reply(r: Response, cleared: bool) -> bool {
    if cleared {
        wire::is_ok(r, OkPayload::Unclaimed)
    } else {
        wire::is_error(r, ErrorKind::Internal, "capability mismatch (claim)"@)
    }
}

/// Decide a `kv.unclaim`: whether the claim is to be cleared, or the refusal.
/// Releasing a key that nobody holds is no error.
pub fn plan_unclaim(key: &str, active: &Option<ActiveClaim>, ticket: &Ticket) -> (r: Result<
    (),
    Response,
>)
    ensures
        r is Ok <==> handler::is_protocol_key(key@) && fence_opens(*active, *ticket),
        r matches Err(resp) ==> is_unclaim_refusal(resp, key@),
{
    match handler::validate_protocol_key(key) {
        Err(resp) => {
            return Err(resp);
        },
        Ok(()) => {},
    }
    if let Some(claim) = active {
        if !claim_token_matches(claim, ticket) {
            return Err(
                Response::error(
                    ErrorKind::ClaimTokenMismatch,
                    "this claim token is no longer the one holding the key, so releasing it would cancel someone else's refresh",
                ),
            );
        }
    }
    Ok(())
}

/// The reply to a `kv.unclaim`, once the store was asked to clear the claim.
pub fn unclaim_recorded(cleared: bool) -> (r: Response)
    ensures
        is_unclaim_reply(r, cleared),
{
    if cleared {
        Response::unclaimed_ack()
    } else {
        Response::error(ErrorKind::Internal, "capability mismatch (claim)")
    }
}

/// While a claim is active, its own token opens the fence and no other ticket
/// does.
pub proof fn only_the_holder_passes(claim: ActiveClaim, ticket: Ticket)
    ensures
        fence_opens(Some(claim), ticket) <==> holds(claim, ticket),
        !fence_opens(Some(claim), Ticket::Missing),
        !fence_opens(Some(claim), Ticket::Malformed),
{
}

/// A lapsed claim asks nothing of a writer.
pub proof fn a_lapsed_claim_demands_nothing(ticket: Ticket)
    ensures
        fence_opens(None, ticket),
{
}

/// A granted claim lasts no longer than the longest one allowed, and lapses
/// after the moment it was taken, short of the end of time.
pub proof fn granted_claims_lapse(now_ms: u64, secs: u64)
    requires
        valid_duration(secs),
    ensures
        lapse(now_ms, secs) <= now_ms + 3_600_000,
        now_ms < u64::MAX ==> now_ms < lapse(now_ms, secs),
{
}

} // verus!
