//! What the request handler asks of the store and of the clock beside it.
//!
//! Nothing is promised of the answers: whatever they are, the handler keeps
//! what it promises itself.

use vstd::prelude::*;

use crate::daemon::claim::{ActiveClaim, ClaimGrant, Ticket};
use crate::daemon::entries::EntrySnapshot;
use crate::daemon::get::{
    EntryState, ExtendOutcome, GuardFinding, RegenerateDefOutcome, RegenerateOutcome,
};
use crate::daemon::guard::{GetterAuditToken, GetterProcess, GuardRecord, ProcessInfo};
use crate::daemon::handler::{DefineOutcome, PinOutcome, ValueMeta};
use crate::daemon::set::{SetPlan, StoreOutcome};
use crate::otp_type::OtpOverrides;
use crate::wire::SourceSpecWire;

verus! {

/// A store of secrets. A method that takes `&self` leaves it as it is.
pub trait SecretStore {
    /// What a code is made with beside the key: its length, its period, its hash.
    type OtpParams;

    /// Read a seed's text, with what overrides it.
    fn resolve_seed(seed: &str, overrides: OtpOverrides) -> Result<
        (Vec<u8>, Self::OtpParams),
        String,
    >;

    /// The code of a key at a time, in seconds since the Unix epoch.
    fn totp(key: &[u8], now_secs: u64, params: &Self::OtpParams) -> Result<String, String>;

    /// The bytes as a text in base64.
    fn encode_value(bytes: &[u8]) -> String;

    /// What the store shows of each of its keys, in order, without the values.
    fn snapshots(&self) -> Vec<EntrySnapshot>;

    /// The store's own clock, in nanoseconds.
    fn now_ns(&self) -> u64;

    /// The wall clock, in milliseconds since the Unix epoch.
    fn now_epoch_ms(&self) -> u64;

    /// How often the key was written.
    fn version_of(&self, key: &str) -> u64;

    fn has_value(&self, key: &str) -> bool;

    fn is_defined(&self, key: &str) -> bool;

    /// The value type of the key's definition, where it has one.
    fn meta_of(&self, key: &str) -> Option<ValueMeta>;

    /// The key's claim, unless it has lapsed.
    fn active_claim(&self, key: &str) -> Option<ActiveClaim>;

    /// Read a text as a claim token.
    fn parse_token(&self, token: &str) -> Ticket;

    /// Whether the two times to live go together.
    fn check_ttl(&self, soft_secs: Option<u64>, hard_secs: Option<u64>) -> Result<(), String>;

    /// Whether a source has what its kind requires.
    fn check_source(&self, source: &SourceSpecWire) -> Result<(), String>;

    /// The bytes that a text stands for in base64, where it stands for any.
    fn decode_value(&self, value_b64: &str) -> Option<Vec<u8>>;

    /// Whether the key has a guard.
    fn is_guarded(&self, key: &str) -> bool;

    /// Hold a requester of this ancestry against the guard of the key: the kinds
    /// of the constraints, which they all meet, or the kind of the first that
    /// they do not meet.
    fn evaluate_guard(
        &self,
        key: &str,
        chain: &[GetterProcess],
        token: Option<GetterAuditToken>,
    ) -> Result<Vec<String>, String>;

    /// The value, where there is one that can be read now; an error where the
    /// store was asked with the wrong capability.
    fn get(&mut self, key: &str) -> Result<Option<&[u8]>, ()>;

    fn state_of(&mut self, key: &str) -> Option<EntryState>;

    /// Authenticate the requester and extend the entry's life.
    fn extend(&mut self, key: &str, requester: Option<&[ProcessInfo]>) -> ExtendOutcome;

    /// Authenticate the requester and run the entry's own source again.
    fn regenerate(&mut self, key: &str, requester: Option<&[ProcessInfo]>) -> RegenerateOutcome;

    /// Authenticate the requester and run the source of the key's definition.
    fn generate(&mut self, key: &str, requester: Option<&[ProcessInfo]>) -> RegenerateDefOutcome;

    fn store_value(&mut self, plan: &SetPlan) -> StoreOutcome;

    /// Attach a guard to the key. Says whether it is in place.
    fn install_guard(&mut self, key: &str, record: GuardRecord) -> bool;

    /// Drop whatever guard the key has. Says whether none is left.
    fn clear_guard(&mut self, key: &str) -> bool;

    /// Count one more write of the key: the new version.
    fn advance_version(&mut self, key: &str) -> Option<u64>;

    /// Record a claim under a fresh token: the token, and whether it is
    /// recorded.
    fn record_claim(&mut self, key: &str, grant: ClaimGrant) -> (String, bool);

    /// End the key's claim. Says whether none is left.
    fn clear_claim(&mut self, key: &str) -> bool;

    /// Delete the value, or the value and the definition: whether there was
    /// something to delete.
    fn delete(&mut self, key: &str, with_define: bool) -> Option<bool>;

    fn define(
        &mut self,
        key: &str,
        source: SourceSpecWire,
        soft_secs: Option<u64>,
        hard_secs: Option<u64>,
        meta: ValueMeta,
    ) -> DefineOutcome;

    /// Authenticate the requester and keep the entry active for so long.
    fn pin(
        &mut self,
        key: &str,
        duration_secs: u64,
        requester: Option<&[ProcessInfo]>,
    ) -> PinOutcome;

    /// Remove the entry's pin: whether the key exists.
    fn unpin(&mut self, key: &str) -> Option<bool>;
}

/// The store may answer `version` to how often `key` was written.
pub open spec fn tells_version<S: SecretStore>(store: S, key: Seq<char>, version: u64) -> bool {
    exists|k: &str| k@ == key && #[trigger] call_ensures(S::version_of, (&store, k), version)
}

/// The store may answer `has_value` to whether `key` holds a value.
pub open spec fn tells_value<S: SecretStore>(store: S, key: Seq<char>, has_value: bool) -> bool {
    exists|k: &str| k@ == key && #[trigger] call_ensures(S::has_value, (&store, k), has_value)
}

/// The store may answer that `claim` is the active claim of `key`.
pub open spec fn tells_claim<S: SecretStore>(
    store: S,
    key: Seq<char>,
    claim: Option<ActiveClaim>,
) -> bool {
    exists|k: &str| k@ == key && #[trigger] call_ensures(S::active_claim, (&store, k), claim)
}

/// The store may read `token` as `ticket`.
pub open spec fn reads_token<S: SecretStore>(store: S, token: Seq<char>, ticket: Ticket) -> bool {
    exists|t: &str| t@ == token && #[trigger] call_ensures(S::parse_token, (&store, t), ticket)
}

/// The store may read `text` as the value `value`.
pub open spec fn decodes<S: SecretStore>(
    store: S,
    text: Seq<char>,
    value: Option<Vec<u8>>,
) -> bool {
    exists|t: &str| t@ == text && #[trigger] call_ensures(S::decode_value, (&store, t), value)
}

/// The store may answer `guarded` to whether `key` has a guard.
pub open spec fn tells_guard<S: SecretStore>(store: S, key: Seq<char>, guarded: bool) -> bool {
    exists|k: &str| k@ == key && #[trigger] call_ensures(S::is_guarded, (&store, k), guarded)
}

/// The store may find `passed` of the guard of `key`, for this requester.
pub open spec fn evaluates<S: SecretStore>(
    store: S,
    key: Seq<char>,
    chain: &[GetterProcess],
    token: Option<GetterAuditToken>,
    passed: Result<Vec<String>, String>,
) -> bool {
    exists|k: &str|
        k@ == key && #[trigger] call_ensures(S::evaluate_guard, (&store, k, chain, token), passed)
}

/// `finding` is what the store may say of the guard of `key` for this requester:
/// a guard is evaluated where there is one and the requester's ancestry is known.
pub open spec fn judges<S: SecretStore>(
    store: S,
    key: Seq<char>,
    chain: Option<&[GetterProcess]>,
    token: Option<GetterAuditToken>,
    finding: GuardFinding,
) -> bool {
    &&& tells_guard(store, key, finding.guarded)
    &&& finding.chain_known == (chain is Some)
    &&& if finding.guarded && chain is Some {
        match finding.denied {
            None => evaluates(store, key, chain->0, token, Ok(finding.passed)),
            Some(kind) => evaluates(store, key, chain->0, token, Err(kind))
                && finding.passed@.len() == 0,
        }
    } else {
        finding.denied is None && finding.passed@.len() == 0
    }
}

/// Hold a requester against the guard of the key.
pub fn judge<S: SecretStore>(
    store: &S,
    key: &str,
    chain: Option<&[GetterProcess]>,
    token: Option<GetterAuditToken>,
) -> (r: GuardFinding)
    ensures
        judges(*store, key@, chain, token, r),
{
    let guarded = store.is_guarded(key);
    assert(tells_guard(*store, key@, guarded));
    let mut finding = GuardFinding {
        guarded,
        chain_known: chain.is_some(),
        denied: None,
        passed: Vec::new(),
    };
    if guarded {
        if let Some(processes) = chain {
            let evaluated = store.evaluate_guard(key, processes, token);
            assert(evaluates(*store, key@, processes, token, evaluated));
            match evaluated {
                Ok(passed) => {
                    finding.passed = passed;
                },
                Err(kind) => {
                    finding.denied = Some(kind);
                },
            }
        }
    }
    finding
}

/// The store may show `snapshots` while its clock stands at `now_ns`.
pub open spec fn shows<S: SecretStore>(
    store: S,
    snapshots: Vec<EntrySnapshot>,
    now_ns: u64,
) -> bool {
    call_ensures(S::snapshots, (&store,), snapshots) && call_ensures(S::now_ns, (&store,), now_ns)
}

/// The store may find `ttl` of the two times to live.
pub open spec fn finds_ttl<S: SecretStore>(
    store: S,
    soft_secs: Option<u64>,
    hard_secs: Option<u64>,
    ttl: Result<(), String>,
) -> bool {
    call_ensures(S::check_ttl, (&store, soft_secs, hard_secs), ttl)
}

/// The store may find `fault` of the source.
pub open spec fn finds_source<S: SecretStore>(
    store: S,
    source: SourceSpecWire,
    fault: Result<(), String>,
) -> bool {
    call_ensures(S::check_source, (&store, &source), fault)
}

} // verus!
