//! Laws of the claims on refreshing a key.

use vstd::prelude::*;

use crate::daemon::claim;
use crate::daemon::claim::{ActiveClaim, ClaimGrant, Ticket};
use crate::daemon::handler;
use crate::laws::replies;
use crate::wire::{ErrorKind, OkPayload, Response};

verus! {

/// A claim of so many seconds holds the key for exactly that long, from the
/// moment it is taken; at the end of time it ends with it.
pub proof fn a_claim_lasts_as_long_as_was_asked(
    key: &str,
    has_value: bool,
    current_version: u64,
    expected_version: u64,
    duration_secs: u64,
    active: &Option<ActiveClaim>,
    now_ms: u64,
    grant: ClaimGrant,
)
    requires
        call_ensures(
            claim::plan_claim,
            (key, has_value, current_version, expected_version, duration_secs, active, now_ms),
            Ok(grant),
        ),
    ensures
        grant.taken_at_ms == now_ms,
        now_ms + 1000 * duration_secs <= u64::MAX ==> grant.expires_at_ms - grant.taken_at_ms == 1000
            * duration_secs,
        now_ms + 1000 * duration_secs > u64::MAX ==> grant.expires_at_ms == u64::MAX,
{
}

/// A claim is granted exactly on a key that holds a value, to a caller that knows
/// its version, for one second to an hour, while nobody holds it.
pub proof fn who_is_granted_a_claim(
    key: &str,
    has_value: bool,
    current_version: u64,
    expected_version: u64,
    duration_secs: u64,
    active: &Option<ActiveClaim>,
    now_ms: u64,
    r: Result<ClaimGrant, Response>,
)
    requires
        handler::is_protocol_key(key@),
        call_ensures(
            claim::plan_claim,
            (key, has_value, current_version, expected_version, duration_secs, active, now_ms),
            r,
        ),
    ensures
        r is Ok <==> has_value && current_version == expected_version && 0 < duration_secs
            && duration_secs <= 60 * 60 && *active is None,
        r matches Err(Response::Failure(body)) ==> {
            let kind = body.error.kind;
            &&& !has_value <==> kind == ErrorKind::NotFound
            &&& has_value && (duration_secs == 0 || duration_secs > 60 * 60) <==> kind
                == ErrorKind::BadRequest
            &&& kind == ErrorKind::CasMismatch <==> body.error.current_version == Some(
                current_version,
            )
            &&& kind == ErrorKind::CasMismatch ==> current_version != expected_version
            &&& kind == ErrorKind::AlreadyClaimed ==> *active is Some
            &&& kind == ErrorKind::AlreadyClaimed <==> body.error.claim_expires_in_secs is Some
        },
        r matches Err(resp) ==> resp is Failure,
{
}

/// What is left of a claim is told in whole seconds: the fewest that cover it.
pub proof fn the_seconds_left_cover_the_time_left(ms: u64, r: u64)
    requires
        call_ensures(claim::ms_to_covering_secs, (ms,), r),
    ensures
        1000 * r >= ms,
        forall|n: nat| #![trigger 1000 * n] 1000 * n >= ms ==> n >= r,
{
}

/// A caller that finds the key held is told how long it is still held for.
pub proof fn a_held_key_tells_when_it_is_free(
    key: &str,
    version: u64,
    duration_secs: u64,
    active: &Option<ActiveClaim>,
    now_ms: u64,
    r: Result<ClaimGrant, Response>,
)
    requires
        handler::is_protocol_key(key@),
        0 < duration_secs <= 3600,
        *active is Some,
        call_ensures(
            claim::plan_claim,
            (key, true, version, version, duration_secs, active, now_ms),
            r,
        ),
    ensures
        r matches Err(Response::Failure(body)) && (body.error.claim_expires_in_secs matches Some(
            secs,
        ) && 1000 * secs >= active->0.remaining_ms && 1000 * secs < active->0.remaining_ms + 1000),
{
}

/// The caller learns the token, the version and how long the claim lasts: what
/// the key was claimed for.
pub proof fn a_granted_claim_is_acknowledged(
    recorded: bool,
    version: u64,
    token: String,
    duration_secs: u64,
    r: Response,
)
    requires
        call_ensures(claim::claim_recorded, (recorded, version, token, duration_secs), r),
    ensures
        r is Success <==> recorded,
        r matches Response::Success(body) ==> (body.payload matches OkPayload::Claimed {
            version: v,
            claim_token,
            claim_expires_in_secs,
        } && v == version && claim_token@ == token@ && claim_expires_in_secs == duration_secs),
{
}

/// While a claim holds, a write goes through exactly with its own token; while
/// none does, with anything.
pub proof fn the_fence_lets_the_holder_through(
    active: &Option<ActiveClaim>,
    ticket: &Ticket,
    r: Result<(), Response>,
)
    requires
        call_ensures(claim::check_claim_fence, (active, ticket), r),
    ensures
        *active is None ==> r is Ok,
        *active matches Some(held) ==> (r is Ok <==> (held.token matches Some(own) && (*ticket
            matches Ticket::Token(brought) && own@ == brought@))),
        r matches Err(resp) ==> (resp matches Response::Failure(body) && body.error.kind
            == ErrorKind::ClaimTokenMismatch),
{
}

/// Who may write past a claim may also end it, and nobody else; a key that
/// nobody holds is released without complaint.
pub proof fn who_may_release_a_claim(
    key: &str,
    active: &Option<ActiveClaim>,
    ticket: &Ticket,
    fence: Result<(), Response>,
    r: Result<(), Response>,
)
    requires
        handler::is_protocol_key(key@),
        call_ensures(claim::check_claim_fence, (active, ticket), fence),
        call_ensures(claim::plan_unclaim, (key, active, ticket), r),
    ensures
        r is Ok <==> fence is Ok,
        *active is None ==> r is Ok,
        r matches Err(resp) ==> (resp matches Response::Failure(body) && body.error.kind
            == ErrorKind::ClaimTokenMismatch),
{
}

/// A claim is held by its own token and by nothing else.
pub proof fn claims_are_held_by_their_token(claim: &ActiveClaim, ticket: &Ticket, r: bool)
    requires
        call_ensures(claim::claim_token_matches, (claim, ticket), r),
    ensures
        r <==> (*ticket matches Ticket::Token(t) && (claim.token matches Some(held) && t@
            == held@)),
        *ticket is Missing || *ticket is Malformed || claim.token is None ==> !r,
{
}

/// A claim that was cleared is acknowledged as released, and only such a one.
pub proof fn released_claims_are_acknowledged(cleared: bool, r: Response)
    requires
        call_ensures(claim::unclaim_recorded, (cleared,), r),
    ensures
        cleared <==> (r matches Response::Success(body) && body.payload is Unclaimed),
        !cleared <==> r is Failure,
{
}

/// A claim is refused for the first of these that holds: the key is none, it has
/// no value, the time is out of bounds, the version is another, somebody else
/// holds it.
pub proof fn why_a_claim_is_refused(
    key: &str,
    has_value: bool,
    current_version: u64,
    expected_version: u64,
    duration_secs: u64,
    active: &Option<ActiveClaim>,
    now_ms: u64,
    resp: Response,
)
    requires
        call_ensures(
            claim::plan_claim,
            (key, has_value, current_version, expected_version, duration_secs, active, now_ms),
            Err(resp),
        ),
    ensures
        resp matches Response::Failure(body) && body.error.kind == if !replies::is_key(key@) {
            ErrorKind::BadRequest
        } else if !has_value {
            ErrorKind::NotFound
        } else if duration_secs == 0 || duration_secs > 60 * 60 {
            ErrorKind::BadRequest
        } else if current_version != expected_version {
            ErrorKind::CasMismatch
        } else {
            ErrorKind::AlreadyClaimed
        },
{
    replies::keys_are_protocol_keys(key@);
}

/// Nothing that is no key is claimed or released.
pub proof fn only_keys_are_claimed(
    key: &str,
    has_value: bool,
    current_version: u64,
    expected_version: u64,
    duration_secs: u64,
    active: &Option<ActiveClaim>,
    ticket: &Ticket,
    now_ms: u64,
    r: Result<ClaimGrant, Response>,
    s: Result<(), Response>,
)
    requires
        !replies::is_key(key@),
        call_ensures(
            claim::plan_claim,
            (key, has_value, current_version, expected_version, duration_secs, active, now_ms),
            r,
        ),
        call_ensures(claim::plan_unclaim, (key, active, ticket), s),
    ensures
        r is Err,
        s matches Err(resp) && (resp matches Response::Failure(body) && body.error.kind
            == ErrorKind::BadRequest),
{
    replies::keys_are_protocol_keys(key@);
}

} // verus!
