//! The daemon, driven end to end against a small in-memory store.

use std::cell::Cell;
use std::collections::BTreeMap;
use std::time::Duration;

use cache_warden_cli::config::KvDefinition;
use cache_warden_cli::daemon::approval::{
    approver_helper_path, approver_request_id, dialog_outcome, dispatch_request, malformed_reply,
    panicked_reply, persist_needed, poisoned_reply, wait_ready, ApprovalOutcome, ApproverState,
    DialogAnswer, Dispatch, WaitStep, APPROVER_HELPER_PATH,
};
use cache_warden_cli::daemon::claim::{ActiveClaim, ClaimGrant, Ticket, MAX_CLAIM_SECS};
use cache_warden_cli::daemon::dispatch::{
    begin_request, finish_request, guarded_get_finalize_after_approval, guarded_get_first_pass,
    run_request, Begun, GuardedGetFirstPass, Host,
};
use cache_warden_cli::daemon::entries::EntrySnapshot;
use cache_warden_cli::daemon::get::{
    EntryState, ExtendOutcome, GuardCheckMode, RegenerateDefOutcome, RegenerateOutcome,
};
use cache_warden_cli::daemon::guard::{
    DeclaredAncestor, GetterAuditToken, GetterProcess, GuardConstraint, GuardRecord, GuardSetter,
    PinnedProcess, ProcessInfo, ResolvedKvPolicy,
};
use cache_warden_cli::daemon::handler::{DefineOutcome, PinOutcome, ValueMeta};
use cache_warden_cli::daemon::requests::{HandlerCtx, ProcessPolicy};
use cache_warden_cli::daemon::server::{
    bind_step, clock_headroom_secs, definition_names, definition_registered, drain_deadline_secs,
    hardening_warnings, is_blank_line, online_definitions, startup_result, BindStep,
    ConnectionCount, RegisterStep, ServerError, StartupEvent, ENCODE_FAILURE,
};
use cache_warden_cli::daemon::set::{SetPlan, StoreOutcome};
use cache_warden_cli::daemon::startup;
use cache_warden_cli::daemon::startup::{DefinitionFile, StartingStore};
use cache_warden_cli::daemon::store::{judge, SecretStore};
use cache_warden_cli::defs::{StoreKey, StoredDefinition};
use cache_warden_cli::otp_type::OtpOverrides;
use cache_warden_cli::wire::{
    CommandSpecWire, ErrorKind, GuardConstraintWire, OkPayload, OpSpecWire, Request, Response,
    SetSource, SourceSpecWire, ValueMetaWire,
};

const SOFT: u64 = 10;
const HARD: u64 = 30;

// ---- base64 ----

const ALPHABET: &[u8] = b"ABCDEFGHIJKLMNOPQRSTUVWXYZabcdefghijklmnopqrstuvwxyz0123456789+/";

fn encode_b64(bytes: &[u8]) -> String {
    let mut out = String::new();
    for chunk in bytes.chunks(3) {
        let b = [chunk[0], *chunk.get(1).unwrap_or(&0), *chunk.get(2).unwrap_or(&0)];
        let n = (b[0] as usize) << 16 | (b[1] as usize) << 8 | b[2] as usize;
        for i in 0..4 {
            if i <= chunk.len() {
                out.push(ALPHABET[(n >> (18 - 6 * i)) & 63] as char);
            } else {
                out.push('=');
            }
        }
    }
    out
}

fn decode_b64(text: &str) -> Option<Vec<u8>> {
    if text.len() % 4 != 0 {
        return None;
    }
    let body = text.trim_end_matches('=');
    let mut bits: usize = 0;
    let mut count = 0;
    let mut out = Vec::new();
    for b in body.bytes() {
        let digit = ALPHABET.iter().position(|a| *a == b)?;
        bits = bits << 6 | digit;
        count += 6;
        if count >= 8 {
            count -= 8;
            out.push((bits >> count) as u8);
        }
    }
    Some(out)
}

// ---- the world around the store ----

struct FakeClock {
    secs: Cell<u64>,
}

impl FakeClock {
    fn new() -> FakeClock {
        FakeClock { secs: Cell::new(1_000) }
    }

    fn advance(&self, d: Duration) {
        self.secs.set(self.secs.get() + d.as_secs());
    }
}

trait Auth {
    fn allows(&self) -> bool;
}

struct AllowAll;

impl Auth for AllowAll {
    fn allows(&self) -> bool {
        true
    }
}

struct DenyAll;

impl Auth for DenyAll {
    fn allows(&self) -> bool {
        false
    }
}

trait SourceRunner {
    fn run(&self, argv: &[String]) -> Result<Vec<u8>, String>;
}

/// A runner returning a fixed value, counting runs.
struct CountingRunner {
    value: Vec<u8>,
    runs: Cell<usize>,
}

impl CountingRunner {
    fn new(v: &[u8]) -> Self {
        Self { value: v.to_vec(), runs: Cell::new(0) }
    }

    fn runs(&self) -> usize {
        self.runs.get()
    }
}

impl SourceRunner for CountingRunner {
    fn run(&self, _argv: &[String]) -> Result<Vec<u8>, String> {
        self.runs.set(self.runs.get() + 1);
        Ok(self.value.clone())
    }
}

struct FailingRunner;

impl SourceRunner for FailingRunner {
    fn run(&self, _argv: &[String]) -> Result<Vec<u8>, String> {
        Err("the command printed nothing".to_string())
    }
}

/// A runner for `printf TEXT` and `printf %s TEXT`.
struct PrintRunner;

impl SourceRunner for PrintRunner {
    fn run(&self, argv: &[String]) -> Result<Vec<u8>, String> {
        if argv[0] == "printf" {
            Ok(argv[argv.len() - 1].as_bytes().to_vec())
        } else {
            Err(format!("cannot run {}", argv[0]))
        }
    }
}

// ---- the store ----

struct Cap;

#[derive(Clone, Copy)]
struct Ttl {
    soft: Option<u64>,
    hard: Option<u64>,
}

impl Ttl {
    fn new(soft: Option<Duration>, hard: Option<Duration>) -> Result<Ttl, String> {
        match (soft, hard) {
            (Some(s), Some(h)) if s > h => Err("soft TTL exceeds hard TTL".to_string()),
            _ => Ok(Ttl { soft: soft.map(|d| d.as_secs()), hard: hard.map(|d| d.as_secs()) }),
        }
    }
}

enum ValueSource {
    Static,
    Command(Vec<String>),
}

impl ValueSource {
    fn command(argv: Vec<String>) -> ValueSource {
        ValueSource::Command(argv)
    }
}

struct SecretBytes(Vec<u8>);

impl SecretBytes {
    fn new(bytes: Vec<u8>) -> SecretBytes {
        SecretBytes(bytes)
    }
}

struct Entry {
    value: Vec<u8>,
    ttl: Ttl,
    stored_at: u64,
    confirmed_at: u64,
    pinned_until: Option<u64>,
}

#[derive(PartialEq)]
struct Definition {
    source: SourceSpecWire,
    soft: Option<u64>,
    hard: Option<u64>,
    meta: ValueMeta,
}

struct Claim {
    token: String,
    expires_at_ms: u64,
}

struct Store {
    entries: BTreeMap<String, Entry>,
    definitions: BTreeMap<String, Definition>,
    guards: BTreeMap<String, GuardRecord>,
    versions: BTreeMap<String, u64>,
    claims: BTreeMap<String, Claim>,
    backoffs: BTreeMap<String, u64>,
    failure_backoff_secs: u64,
    tokens: u64,
}

fn store_with_cap() -> (Store, Cap) {
    let store = Store {
        entries: BTreeMap::new(),
        definitions: BTreeMap::new(),
        guards: BTreeMap::new(),
        versions: BTreeMap::new(),
        claims: BTreeMap::new(),
        backoffs: BTreeMap::new(),
        failure_backoff_secs: 0,
        tokens: 0,
    };
    (store, Cap)
}

impl Store {
    fn guard_of(&self, key: &str) -> Option<&GuardRecord> {
        self.guards.get(key)
    }

    fn has_value(&self, key: &str) -> bool {
        self.entries.contains_key(key)
    }

    fn is_defined(&self, key: &str) -> bool {
        self.definitions.contains_key(key)
    }

    fn version_of(&self, key: &str) -> u64 {
        self.versions.get(key).copied().unwrap_or(0)
    }

    fn refresh_claim_of(&self, key: &str) -> Option<&Claim> {
        self.claims.get(key)
    }

    /// Store a value beside the request handler, as the daemon does for its own
    /// keys.
    fn set(
        &mut self,
        key: &str,
        source: ValueSource,
        value: SecretBytes,
        ttl: Ttl,
        _cap: &Cap,
        clock: &FakeClock,
    ) -> Result<(), String> {
        match source {
            ValueSource::Static => {}
            ValueSource::Command(argv) => return Err(format!("not a value: {argv:?}")),
        }
        self.keep(key, value.0, ttl, clock.secs.get());
        Ok(())
    }

    /// Define a key beside the request handler.
    fn define(&mut self, key: &str, source: ValueSource, ttl: Ttl) -> Result<(), String> {
        match source {
            ValueSource::Command(argv) => {
                let argv: Vec<&str> = argv.iter().map(|a| a.as_str()).collect();
                let definition = Definition {
                    source: cmd_spec(&argv),
                    soft: ttl.soft,
                    hard: ttl.hard,
                    meta: ValueMeta { type_label: None, params: Vec::new() },
                };
                self.definitions.insert(key.to_string(), definition);
                Ok(())
            }
            ValueSource::Static => Err("static sources cannot be defined".to_string()),
        }
    }

    fn keep(&mut self, key: &str, value: Vec<u8>, ttl: Ttl, now: u64) {
        let entry =
            Entry { value, ttl, stored_at: now, confirmed_at: now, pinned_until: None };
        self.entries.insert(key.to_string(), entry);
    }

    fn state(&self, key: &str, now: u64) -> Option<EntryState> {
        let e = self.entries.get(key)?;
        if e.pinned_until.is_some_and(|until| now < until) {
            Some(EntryState::Active)
        } else if e.ttl.hard.is_some_and(|h| now >= e.stored_at + h) {
            Some(EntryState::HardExpired)
        } else if e.ttl.soft.is_some_and(|s| now >= e.confirmed_at + s) {
            Some(EntryState::SoftExpired)
        } else {
            Some(EntryState::Active)
        }
    }
}

fn display(source: &SourceSpecWire) -> String {
    match source {
        SourceSpecWire::Command { .. } => "command".to_string(),
        SourceSpecWire::Op { op } => match &op.account {
            Some(account) => format!("{} (account {account})", op.uri),
            None => op.uri.clone(),
        },
    }
}

fn argv_of(source: &SourceSpecWire) -> Vec<String> {
    match source {
        SourceSpecWire::Command { command } => command.argv.clone(),
        SourceSpecWire::Op { op } => {
            vec!["op".to_string(), "read".to_string(), op.uri.clone()]
        }
    }
}

/// The first constraint that a requester does not meet, by its kind; the kinds
/// of those before it are put into `passed`.
fn denied(
    record: &GuardRecord,
    chain: &[GetterProcess],
    token: Option<GetterAuditToken>,
    passed: &mut Vec<String>,
) -> Option<String> {
    for constraint in &record.constraints {
        match constraint {
            GuardConstraint::SameUser => match token {
                None => return Some("missing-context".to_string()),
                Some(t) if t.euid != record.setter.euid || t.ruid != record.setter.ruid => {
                    return Some("same-user".to_string());
                }
                Some(_) => {}
            },
            GuardConstraint::SameAncestor { pinned, .. } => {
                let same = |g: &GetterProcess| {
                    g.info.pid == pinned.pid && g.info.start_time == pinned.start_time
                };
                if !chain.iter().any(same) {
                    return Some("same-ancestor".to_string());
                }
            }
            GuardConstraint::Command { name } => {
                if !chain.iter().any(|g| g.info.name().as_ref() == Some(name)) {
                    return Some("command".to_string());
                }
            }
        }
        let kind = match constraint {
            GuardConstraint::SameUser => "same-user",
            GuardConstraint::SameAncestor { .. } => "same-ancestor",
            GuardConstraint::Command { .. } => "command",
        };
        passed.push(kind.to_string());
    }
    None
}

/// The bytes of a base32 text.
fn base32(text: &str) -> Result<Vec<u8>, String> {
    let alphabet = "ABCDEFGHIJKLMNOPQRSTUVWXYZ234567";
    let mut bits: u64 = 0;
    let mut count = 0;
    let mut out = Vec::new();
    for c in text.chars() {
        let digit = alphabet.find(c).ok_or("the seed is not base32")?;
        bits = (bits << 5) | digit as u64;
        count += 5;
        if count >= 8 {
            count -= 8;
            out.push((bits >> count) as u8);
        }
    }
    Ok(out)
}

fn resolve_seed(seed: &str, overrides: OtpOverrides) -> Result<(Vec<u8>, usize), String> {
    let mut secret = seed;
    let mut digits: usize = 6;
    if let Some(rest) = seed.strip_prefix("otpauth://totp/") {
        for pair in rest.split('?').nth(1).unwrap_or("").split('&') {
            match pair.split_once('=') {
                Some(("secret", v)) => secret = v,
                Some(("digits", v)) => digits = v.parse().map_err(|_| "bad digits")?,
                _ => {}
            }
        }
    }
    if let Some(d) = overrides.digits {
        digits = d as usize;
    }
    Ok((base32(secret)?, digits))
}

fn code_of(secret: &[u8], now: u64, digits: &usize) -> Result<String, String> {
    let sum: u64 = secret.iter().map(|b| *b as u64).sum::<u64>() + now / 30;
    Ok(format!("{:0width$}", sum % 1_000_000, width = *digits))
}

impl StartingStore for Bound<'_> {
    fn loaded_keys(&self) -> Vec<String> {
        self.store.entries.keys().cloned().collect()
    }

    fn defined_keys(&self) -> Vec<String> {
        self.store.definitions.keys().cloned().collect()
    }

    fn definitions(&self) -> Vec<StoreKey> {
        let mut keys: Vec<StoreKey> = Vec::new();
        for (key, d) in &self.store.definitions {
            let definition = StoredDefinition {
                command: Some(argv_of(&d.source)),
                soft_ttl_secs: d.soft,
                hard_ttl_secs: d.hard,
                meta: d.meta.clone(),
            };
            keys.push(StoreKey { key: key.clone(), definition: Some(definition) });
        }
        keys
    }

    fn undefine(&mut self, key: &str) {
        self.store.definitions.remove(key);
    }

    fn preload(&mut self, key: &str) -> Result<(), String> {
        self.run(key)
    }

    fn restore(
        &mut self,
        key: &str,
        source: SourceSpecWire,
        soft_secs: Option<u64>,
        hard_secs: Option<u64>,
        meta: ValueMeta,
    ) -> Result<(), String> {
        match self.define(key, source, soft_secs, hard_secs, meta) {
            DefineOutcome::Defined => Ok(()),
            other => Err(format!("{other:?}")),
        }
    }
}

/// The store together with what a request finds around it.
struct Bound<'a> {
    store: &'a mut Store,
    auth: &'a dyn Auth,
    runner: &'a dyn SourceRunner,
    clock: &'a FakeClock,
}

impl Bound<'_> {
    fn now(&self) -> u64 {
        self.clock.secs.get()
    }

    /// Run the source of a definition and keep its value.
    fn run(&mut self, key: &str) -> Result<(), String> {
        let definition = &self.store.definitions[key];
        let ttl = Ttl { soft: definition.soft, hard: definition.hard };
        let value = self.runner.run(&argv_of(&definition.source))?;
        let now = self.now();
        self.store.keep(key, value, ttl, now);
        Ok(())
    }
}

impl SecretStore for Bound<'_> {
    type OtpParams = usize;

    fn resolve_seed(seed: &str, overrides: OtpOverrides) -> Result<(Vec<u8>, usize), String> {
        resolve_seed(seed, overrides)
    }

    fn totp(key: &[u8], now_secs: u64, digits: &usize) -> Result<String, String> {
        code_of(key, now_secs, digits)
    }

    fn encode_value(bytes: &[u8]) -> String {
        encode_b64(bytes)
    }

    fn snapshots(&self) -> Vec<EntrySnapshot> {
        let mut keys: Vec<String> = self.store.entries.keys().cloned().collect();
        for key in self.store.definitions.keys() {
            if !keys.contains(key) {
                keys.push(key.clone());
            }
        }
        keys.sort();
        keys.into_iter()
            .map(|name| {
                let definition = self.store.definitions.get(&name);
                EntrySnapshot {
                    has_value: self.store.has_value(&name),
                    defined: definition.is_some(),
                    state: self.store.state(&name, self.now()),
                    source_regenerable: false,
                    pin_deadline_ns: self
                        .store
                        .entries
                        .get(&name)
                        .and_then(|e| e.pinned_until)
                        .map(|s| s * 1_000_000_000),
                    type_label: definition.and_then(|d| d.meta.type_label.clone()),
                    source: definition.map(|d| display(&d.source)),
                    backoff_remaining_ns: self
                        .store
                        .backoffs
                        .get(&name)
                        .filter(|until| **until > self.now())
                        .map(|until| (until - self.now()) * 1_000_000_000),
                    guard: self.store.guards.get(&name).cloned(),
                    version: self.store.version_of(&name),
                    claim_remaining_ms: self.active_claim(&name).map(|c| c.remaining_ms),
                    name,
                }
            })
            .collect()
    }

    fn now_ns(&self) -> u64 {
        self.now() * 1_000_000_000
    }

    fn now_epoch_ms(&self) -> u64 {
        self.now() * 1_000
    }

    fn version_of(&self, key: &str) -> u64 {
        self.store.version_of(key)
    }

    fn has_value(&self, key: &str) -> bool {
        self.store.has_value(key)
    }

    fn is_defined(&self, key: &str) -> bool {
        self.store.is_defined(key)
    }

    fn meta_of(&self, key: &str) -> Option<ValueMeta> {
        self.store.definitions.get(key).map(|d| d.meta.clone())
    }

    fn active_claim(&self, key: &str) -> Option<ActiveClaim> {
        let claim = self.store.claims.get(key)?;
        let now = self.now_epoch_ms();
        if claim.expires_at_ms <= now {
            return None;
        }
        Some(ActiveClaim {
            token: Some(claim.token.clone()),
            remaining_ms: claim.expires_at_ms - now,
        })
    }

    fn parse_token(&self, token: &str) -> Ticket {
        let plain = |c: char| c.is_ascii_alphanumeric() || c == '-' || c == '_';
        if token.len() == 22 && token.chars().all(plain) {
            Ticket::Token(token.to_string())
        } else {
            Ticket::Malformed
        }
    }

    fn check_ttl(&self, soft: Option<u64>, hard: Option<u64>) -> Result<(), String> {
        Ttl::new(soft.map(Duration::from_secs), hard.map(Duration::from_secs)).map(|_| ())
    }

    fn check_source(&self, source: &SourceSpecWire) -> Result<(), String> {
        match source {
            SourceSpecWire::Command { command } if command.argv.is_empty() => {
                Err("source = \"command\" requires a non-empty command.argv".to_string())
            }
            _ => Ok(()),
        }
    }

    fn decode_value(&self, value_b64: &str) -> Option<Vec<u8>> {
        decode_b64(value_b64)
    }

    fn is_guarded(&self, key: &str) -> bool {
        self.store.guards.contains_key(key)
    }

    fn evaluate_guard(
        &self,
        key: &str,
        chain: &[GetterProcess],
        token: Option<GetterAuditToken>,
    ) -> Result<Vec<String>, String> {
        let mut passed = Vec::new();
        match denied(&self.store.guards[key], chain, token, &mut passed) {
            None => Ok(passed),
            Some(kind) => Err(kind),
        }
    }

    fn get(&mut self, key: &str) -> Result<Option<&[u8]>, ()> {
        if self.store.state(key, self.now()) == Some(EntryState::Active) {
            Ok(Some(&self.store.entries[key].value))
        } else {
            Ok(None)
        }
    }

    fn state_of(&mut self, key: &str) -> Option<EntryState> {
        self.store.state(key, self.now())
    }

    fn extend(&mut self, key: &str, _requester: Option<&[ProcessInfo]>) -> ExtendOutcome {
        if !self.auth.allows() {
            return ExtendOutcome::AuthFailed("authentication denied".to_string());
        }
        let now = self.now();
        match self.store.entries.get_mut(key) {
            None => ExtendOutcome::NotFound,
            Some(e) => {
                e.confirmed_at = now;
                ExtendOutcome::Extended
            }
        }
    }

    fn regenerate(&mut self, key: &str, _requester: Option<&[ProcessInfo]>) -> RegenerateOutcome {
        if self.store.has_value(key) {
            RegenerateOutcome::NotRegenerable
        } else {
            RegenerateOutcome::NotFound
        }
    }

    fn generate(&mut self, key: &str, _requester: Option<&[ProcessInfo]>) -> RegenerateDefOutcome {
        if !self.store.is_defined(key) {
            return RegenerateDefOutcome::Undefined;
        }
        let now = self.now();
        if let Some(until) = self.store.backoffs.get(key).filter(|until| **until > now) {
            return RegenerateDefOutcome::Backoff { retry_after: format!("{}.0", until - now) };
        }
        if !self.auth.allows() {
            return RegenerateDefOutcome::AuthFailed("authentication denied".to_string());
        }
        match self.run(key) {
            Ok(()) => RegenerateDefOutcome::Generated,
            Err(e) => {
                let until = now + self.store.failure_backoff_secs;
                self.store.backoffs.insert(key.to_string(), until);
                RegenerateDefOutcome::RunFailed(e)
            }
        }
    }

    fn store_value(&mut self, plan: &SetPlan) -> StoreOutcome {
        let now = self.now();
        let ttl = Ttl { soft: plan.soft_ttl_secs, hard: plan.hard_ttl_secs };
        self.store.keep(&plan.key, plan.value.clone(), ttl, now);
        StoreOutcome::Stored
    }

    fn install_guard(&mut self, key: &str, record: GuardRecord) -> bool {
        self.store.guards.insert(key.to_string(), record);
        true
    }

    fn clear_guard(&mut self, key: &str) -> bool {
        self.store.guards.remove(key);
        true
    }

    fn advance_version(&mut self, key: &str) -> Option<u64> {
        let version = self.store.version_of(key) + 1;
        self.store.versions.insert(key.to_string(), version);
        Some(version)
    }

    fn record_claim(&mut self, key: &str, grant: ClaimGrant) -> (String, bool) {
        self.store.tokens += 1;
        let token = format!("{:022}", self.store.tokens);
        let claim = Claim { token: token.clone(), expires_at_ms: grant.expires_at_ms };
        self.store.claims.insert(key.to_string(), claim);
        (token, true)
    }

    fn clear_claim(&mut self, key: &str) -> bool {
        self.store.claims.remove(key);
        true
    }

    fn delete(&mut self, key: &str, with_define: bool) -> Option<bool> {
        let mut removed = self.store.entries.remove(key).is_some();
        self.store.guards.remove(key);
        self.store.claims.remove(key);
        if with_define {
            removed |= self.store.definitions.remove(key).is_some();
        }
        Some(removed)
    }

    fn define(
        &mut self,
        key: &str,
        source: SourceSpecWire,
        soft: Option<u64>,
        hard: Option<u64>,
        meta: ValueMeta,
    ) -> DefineOutcome {
        let definition = Definition { source, soft, hard, meta };
        match self.store.definitions.get(key) {
            Some(known) if *known != definition => DefineOutcome::Conflict,
            _ => {
                self.store.definitions.insert(key.to_string(), definition);
                DefineOutcome::Defined
            }
        }
    }

    fn pin(
        &mut self,
        key: &str,
        duration_secs: u64,
        _requester: Option<&[ProcessInfo]>,
    ) -> PinOutcome {
        match self.store.state(key, self.now()) {
            None => return PinOutcome::NotFound,
            Some(EntryState::HardExpired) => return PinOutcome::HardExpired,
            Some(_) => {}
        }
        if !self.auth.allows() {
            return PinOutcome::AuthFailed("authentication denied".to_string());
        }
        let until = self.now() + duration_secs;
        if let Some(e) = self.store.entries.get_mut(key) {
            e.pinned_until = Some(until);
        }
        PinOutcome::Pinned
    }

    fn unpin(&mut self, key: &str) -> Option<bool> {
        match self.store.entries.get_mut(key) {
            None => Some(false),
            Some(e) => {
                e.pinned_until = None;
                Some(true)
            }
        }
    }
}

// ---- requests ----

/// What a request is handled with, and what the store finds around it.
struct Ctx<'a> {
    auth: &'a dyn Auth,
    runner: &'a dyn SourceRunner,
    clock: &'a FakeClock,
    ctx: HandlerCtx<'a>,
}

fn handle_request(store: &mut Store, c: &Ctx<'_>, req: Request) -> Response {
    let mut bound = Bound { store, auth: c.auth, runner: c.runner, clock: c.clock };
    cache_warden_cli::daemon::requests::handle_request(&mut bound, &c.ctx, req)
}

fn default_shell_names() -> Vec<String> {
    ["zsh", "bash", "fish", "sh", "nu"].iter().map(|s| s.to_string()).collect()
}

/// A policy that guards nothing by itself.
fn default_policy() -> &'static ResolvedKvPolicy {
    Box::leak(Box::new(policy_with_default_same_user(false)))
}

fn ctx<'a>(
    auth: &'a dyn Auth,
    runner: &'a dyn SourceRunner,
    clock: &'a FakeClock,
    _cap: &'a Cap,
) -> Ctx<'a> {
    Ctx {
        auth,
        runner,
        clock,
        ctx: HandlerCtx {
            pid: 1234,
            version: "test",
            socket: "/tmp/test.sock",
            full_disk_access: None,
            requester: None,
            kv_process_policies: &[],
            guard_chain: None,
            guard_audit_token: None,
            kv_policy: default_policy(),
            guard_check_mode: GuardCheckMode::Evaluate,
        },
    }
}

fn ctx_with_guard<'a>(
    auth: &'a dyn Auth,
    runner: &'a dyn SourceRunner,
    clock: &'a FakeClock,
    cap: &'a Cap,
    chain: Option<&'a [GetterProcess]>,
    token: Option<GetterAuditToken>,
    policy: &'a ResolvedKvPolicy,
) -> Ctx<'a> {
    let mut c = ctx(auth, runner, clock, cap);
    c.ctx.guard_chain = chain;
    c.ctx.guard_audit_token = token;
    c.ctx.kv_policy = policy;
    c
}

/// A process with a basename, for building a requester's ancestry.
fn proc(pid: u32, name: &str) -> ProcessInfo {
    ProcessInfo {
        pid,
        ppid: Some(1),
        path: Some(format!("/usr/bin/{name}")),
        start_time: Some(pid as u64),
    }
}

fn no_meta() -> ValueMetaWire {
    ValueMetaWire { type_label: None, params: Vec::new() }
}

fn set_static(value: &[u8]) -> Request {
    Request::KvSet {
        key: "default/K".into(),
        source: SetSource::Static {
            value_b64: encode_b64(value),
        },
        soft_ttl_secs: Some(SOFT),
        hard_ttl_secs: Some(HARD),
        guard_constraints: Vec::new(),
        expected_version: None,
        claim_token: None,
        persist: None,
    }
}

/// A `command` typed source from a plain argv (test helper).
fn cmd_spec(argv: &[&str]) -> SourceSpecWire {
        SourceSpecWire::Command {
        command: CommandSpecWire {
            argv: argv.iter().map(|s| s.to_string()).collect(),
            cwd: None,
            env: Vec::new(),
        },
    }
}

fn define_cmd(key: &str, argv: &[&str]) -> Request {
    Request::KvDefine {
        key: key.into(),
        source: cmd_spec(argv),
        soft_ttl_secs: Some(SOFT),
        hard_ttl_secs: Some(HARD),
        meta: no_meta(),
    }
}

/// An `op` typed source from a uri (+ optional account) - test helper.
fn op_spec(uri: &str, account: Option<&str>) -> SourceSpecWire {
        SourceSpecWire::Op {
        op: OpSpecWire {
            uri: uri.into(),
            account: account.map(|s| s.to_string()),
        },
    }
}

fn define_with(key: &str, source: SourceSpecWire) -> Request {
    Request::KvDefine {
        key: key.into(),
        source,
        soft_ttl_secs: Some(SOFT),
        hard_ttl_secs: Some(HARD),
        meta: no_meta(),
    }
}

fn get_value(resp: &Response) -> Vec<u8> {
    match resp {
        Response::Success(ok) => match &ok.payload {
            OkPayload::Get { value_b64 } => decode_b64(value_b64).unwrap(),
            _ => panic!("not a Get payload: {ok:?}"),
        },
        Response::Failure(e) => panic!("expected ok, got error: {e:?}"),
    }
}

/// Read the `source` field of the single status entry for `key`.
fn status_source_of(store: &mut Store, c: &Ctx<'_>, key: &str) -> Option<String> {
    let resp = handle_request(store, c, Request::Status);
    match resp {
        Response::Success(ok) => match ok.payload {
            OkPayload::Status { entries, .. } => entries
                .into_iter()
                .find(|e| e.name == key)
                .and_then(|e| e.source),
            _ => panic!("not status"),
        },
        _ => panic!("expected ok"),
    }
}

#[test]
fn op_define_shows_uri_in_status_not_a_secret() {
    // an op source's status `source` is its uri reference.
    let clock = FakeClock::new();
    let (mut store, cap) = store_with_cap();
    let runner = CountingRunner::new(b"x");
    let c = ctx(&AllowAll, &runner, &clock, &cap);
    assert!(
        handle_request(
            &mut store,
            &c,
            define_with(
                "default/GH",
                op_spec("op://vault/item/field", Some("acct.1password.com"))
            )
        )
        .is_ok()
    );
    let src = status_source_of(&mut store, &c, "default/GH").unwrap();
    assert_eq!(src, "op://vault/item/field (account acct.1password.com)");
}

#[test]
fn command_define_status_source_hides_argv() {
    // secret hygiene: a command source's status `source` is just
    // the discriminant (the argv may carry a secret, e.g. `printf %s <seed>`).
    let clock = FakeClock::new();
    let (mut store, cap) = store_with_cap();
    let runner = CountingRunner::new(b"x");
    let c = ctx(&AllowAll, &runner, &clock, &cap);
    assert!(
        handle_request(
            &mut store,
            &c,
            define_with("default/K", cmd_spec(&["printf", "%s", "SECRET_SEED"]))
        )
        .is_ok()
    );
    let src = status_source_of(&mut store, &c, "default/K").unwrap();
    assert_eq!(src, "command");
    // The status response as a whole must not leak the argv secret.
    let resp = handle_request(&mut store, &c, Request::Status);
    let line = format!("{resp:?}");
    assert!(!line.contains("SECRET_SEED"), "status leaked argv: {line}");
}

#[test]
fn op_redefine_identical_is_idempotent() {
    let clock = FakeClock::new();
    let (mut store, cap) = store_with_cap();
    let runner = CountingRunner::new(b"x");
    let c = ctx(&AllowAll, &runner, &clock, &cap);
    let def = || define_with("default/GH", op_spec("op://v/i/f", None));
    assert!(handle_request(&mut store, &c, def()).is_ok());
    // Exact same typed source + TTL is a no-op.
    assert!(handle_request(&mut store, &c, def()).is_ok());
}

#[test]
fn redefine_changing_only_typed_source_conflicts() {
    // Idempotency compares the typed source origin: switching the
    // same key from a command source to an op source is a conflict, even if
    // the lowered argv would coincide.
    let clock = FakeClock::new();
    let (mut store, cap) = store_with_cap();
    let runner = CountingRunner::new(b"x");
    let c = ctx(&AllowAll, &runner, &clock, &cap);
    assert!(
        handle_request(
            &mut store,
            &c,
            define_with("default/K", cmd_spec(&["op", "read", "op://v/i/f"]))
        )
        .is_ok()
    );
    let resp = handle_request(
        &mut store,
        &c,
        define_with("default/K", op_spec("op://v/i/f", None)),
    );
    assert_eq!(err_kind(&resp), ErrorKind::BadRequest);
}

fn err_kind(resp: &Response) -> ErrorKind {
    match resp {
        Response::Failure(e) => e.error.kind,
        Response::Success(_) => panic!("expected error, got ok"),
    }
}

fn err_msg(resp: &Response) -> String {
    match resp {
        Response::Failure(e) => e.error.message.clone(),
        Response::Success(_) => panic!("expected error, got ok"),
    }
}

#[test]
fn ping_returns_pong() {
    let clock = FakeClock::new();
    let (mut store, cap) = store_with_cap();
    let runner = CountingRunner::new(b"x");
    let c = ctx(&AllowAll, &runner, &clock, &cap);
    let resp = handle_request(&mut store, &c, Request::Ping);
    assert!(resp.is_ok());
}

#[test]
fn set_then_get_static_value() {
    let clock = FakeClock::new();
    let (mut store, cap) = store_with_cap();
    let runner = CountingRunner::new(b"x");
    let c = ctx(&AllowAll, &runner, &clock, &cap);

    assert!(handle_request(&mut store, &c, set_static(b"hunter2")).is_ok());
    let resp = handle_request(
        &mut store,
        &c,
        Request::KvGet {
            key: "default/K".into(),
            dry_run: false,
        },
    );
    assert_eq!(get_value(&resp), b"hunter2");
}

// ---- guard integration: handle_set / handle_get ----

/// Build a fake `[kv-policy]` for a given `default-require-same-user`.
fn policy_with_default_same_user(v: bool) -> ResolvedKvPolicy {
    ResolvedKvPolicy {
        default_require_same_user: v,
        shell_names: default_shell_names(),
    }
}

/// Build a getter chain entry from a `ProcessInfo` + optional
/// `unique_id` (test-only shape mirrors the daemon-side enrichment).
fn gp(info: ProcessInfo, unique_id: Option<u64>) -> GetterProcess {
    GetterProcess { info, unique_id }
}

/// Extract the `guard_applied` list from a Set success response.
fn set_guard_applied(resp: &Response) -> Vec<String> {
    match resp {
        Response::Success(ok) => match &ok.payload {
            OkPayload::Stored { guard_applied, .. } => guard_applied.clone(),
            other => panic!("expected Set payload, got {other:?}"),
        },
        Response::Failure(e) => panic!("expected ok, got error: {e:?}"),
    }
}

/// A guarded `kv set` with `SameUser` builds the record and echoes the
/// applied kinds in the positive ack (`guard_applied`); a subsequent
/// get from a same-uid peer clears the guard gate. Fixes 
/// "setter identity is daemon-observed, not caller-supplied".
#[test]
fn set_with_same_user_guard_installs_record_and_acks() {
    let clock = FakeClock::new();
    let (mut store, cap) = store_with_cap();
    let runner = CountingRunner::new(b"x");
    let chain = vec![gp(proc(100, "zsh"), None)];
    let token = Some(GetterAuditToken {
        euid: 501,
        ruid: 501,
    });
    let policy = policy_with_default_same_user(false);
    let c = ctx_with_guard(
        &AllowAll,
        &runner,
        &clock,
        &cap,
        Some(&chain),
        token,
        &policy,
    );
    let req = Request::KvSet {
        key: "default/K".into(),
        source: SetSource::Static {
            value_b64: encode_b64(b"hunter2"),
        },
        soft_ttl_secs: Some(SOFT),
        hard_ttl_secs: Some(HARD),
        guard_constraints: vec![GuardConstraintWire::SameUser],
        expected_version: None,
        claim_token: None,
        persist: None,
    };
    let resp = handle_request(&mut store, &c, req);
    assert_eq!(set_guard_applied(&resp), vec!["same-user".to_string()]);
    // The core actually got a guard record installed.
    assert!(store.guard_of("default/K").is_some());

    // Same-uid getter passes.
    let get_ok = handle_request(
        &mut store,
        &c,
        Request::KvGet {
            key: "default/K".into(),
            dry_run: false,
        },
    );
    assert_eq!(get_value(&get_ok), b"hunter2");
}

/// A same-user-guarded entry denies a get whose peer's euid differs
/// (fail-closed, ). The denial does NOT run the retrieval
/// chain - proven separately below via a definition-only key + a
/// runner counter.
#[test]
fn get_denied_when_same_user_guard_uids_do_not_match() {
    let clock = FakeClock::new();
    let (mut store, cap) = store_with_cap();
    let runner = CountingRunner::new(b"x");
    // Setter had uid 501.
    let setter_chain = vec![gp(proc(100, "zsh"), None)];
    let setter_ctx = ctx_with_guard(
        &AllowAll,
        &runner,
        &clock,
        &cap,
        Some(&setter_chain),
        Some(GetterAuditToken {
            euid: 501,
            ruid: 501,
        }),
        default_policy(),
    );
    let set_req = Request::KvSet {
        key: "default/K".into(),
        source: SetSource::Static {
            value_b64: encode_b64(b"secret"),
        },
        soft_ttl_secs: Some(SOFT),
        hard_ttl_secs: Some(HARD),
        guard_constraints: vec![GuardConstraintWire::SameUser],
        expected_version: None,
        claim_token: None,
        persist: None,
    };
    assert!(handle_request(&mut store, &setter_ctx, set_req).is_ok());

    // Getter has a different euid.
    let getter_chain = vec![gp(proc(200, "zsh"), None)];
    let getter_ctx = ctx_with_guard(
        &AllowAll,
        &runner,
        &clock,
        &cap,
        Some(&getter_chain),
        Some(GetterAuditToken {
            euid: 502,
            ruid: 502,
        }),
        default_policy(),
    );
    let resp = handle_request(
        &mut store,
        &getter_ctx,
        Request::KvGet {
            key: "default/K".into(),
            dry_run: false,
        },
    );
    assert_eq!(err_kind(&resp), ErrorKind::AuthFailed);
    assert!(
        err_msg(&resp).contains("same-user"),
        "denial names the failing kind: {:?}",
        err_msg(&resp)
    );
}

/// A subsequent set with an empty `guard_constraints` list drops the
/// previously-installed guard: the last declaration wins.
#[test]
fn empty_set_clears_prior_guard_record() {
    let clock = FakeClock::new();
    let (mut store, cap) = store_with_cap();
    let runner = CountingRunner::new(b"x");
    let chain = vec![gp(proc(100, "zsh"), None)];
    let c = ctx_with_guard(
        &AllowAll,
        &runner,
        &clock,
        &cap,
        Some(&chain),
        Some(GetterAuditToken {
            euid: 501,
            ruid: 501,
        }),
        default_policy(),
    );
    // Install a guard.
    assert!(
        handle_request(
            &mut store,
            &c,
            Request::KvSet {
                key: "default/K".into(),
                source: SetSource::Static {
                    value_b64: encode_b64(b"a"),
                },
                soft_ttl_secs: Some(SOFT),
                hard_ttl_secs: Some(HARD),
                guard_constraints: vec![GuardConstraintWire::SameUser],
                expected_version: None,
                claim_token: None,
                persist: None,
            },
        )
        .is_ok()
    );
    assert!(store.guard_of("default/K").is_some());

    // Empty declaration on the next set clears it.
    let resp = handle_request(&mut store, &c, set_static(b"b"));
    assert_eq!(set_guard_applied(&resp), Vec::<String>::new());
    assert!(store.guard_of("default/K").is_none());
}

/// `[kv-policy] default-require-same-user = true` promotes an
/// unguarded set to `SameUser`. The ack surfaces the applied kind
/// so the client can also observe the implicit upgrade.
#[test]
fn empty_set_upgraded_to_same_user_when_config_default_is_true() {
    let clock = FakeClock::new();
    let (mut store, cap) = store_with_cap();
    let runner = CountingRunner::new(b"x");
    let policy = policy_with_default_same_user(true);
    let chain = vec![gp(proc(1, "sh"), None)];
    let c = ctx_with_guard(
        &AllowAll,
        &runner,
        &clock,
        &cap,
        Some(&chain),
        Some(GetterAuditToken {
            euid: 501,
            ruid: 501,
        }),
        &policy,
    );
    let resp = handle_request(&mut store, &c, set_static(b"v"));
    assert_eq!(set_guard_applied(&resp), vec!["same-user".to_string()]);
    assert!(store.guard_of("default/K").is_some());
}

/// `--require-same-shell` with no shell in the setter's chain rejects
/// the set. The value
/// must not be stored.
#[test]
fn set_with_same_shell_but_no_shell_in_chain_is_rejected() {
    let clock = FakeClock::new();
    let (mut store, cap) = store_with_cap();
    let runner = CountingRunner::new(b"x");
    let chain = vec![gp(proc(100, "git"), None), gp(proc(1, "launchd"), None)];
    let c = ctx_with_guard(
        &AllowAll,
        &runner,
        &clock,
        &cap,
        Some(&chain),
        Some(GetterAuditToken {
            euid: 501,
            ruid: 501,
        }),
        default_policy(),
    );
    let resp = handle_request(
        &mut store,
        &c,
        Request::KvSet {
            key: "default/K".into(),
            source: SetSource::Static {
                value_b64: encode_b64(b"v"),
            },
            soft_ttl_secs: None,
            hard_ttl_secs: None,
            guard_constraints: vec![GuardConstraintWire::SameShell],
            expected_version: None,
            claim_token: None,
            persist: None,
        },
    );
    assert_eq!(err_kind(&resp), ErrorKind::BadRequest);
    assert!(!store.has_value("default/K"), "value must not have landed");
}

/// `SameUser` declared but the daemon has no peer audit token
/// (Linux / getsockopt failure): fail-closed reject the set, don't
/// silently save an unguarded value.
#[test]
fn set_with_guard_but_no_audit_token_is_rejected() {
    let clock = FakeClock::new();
    let (mut store, cap) = store_with_cap();
    let runner = CountingRunner::new(b"x");
    let chain = vec![gp(proc(100, "zsh"), None)];
    let c = ctx_with_guard(
        &AllowAll,
        &runner,
        &clock,
        &cap,
        Some(&chain),
        None, // audit token unavailable
        default_policy(),
    );
    let resp = handle_request(
        &mut store,
        &c,
        Request::KvSet {
            key: "default/K".into(),
            source: SetSource::Static {
                value_b64: encode_b64(b"v"),
            },
            soft_ttl_secs: None,
            hard_ttl_secs: None,
            guard_constraints: vec![GuardConstraintWire::SameUser],
            expected_version: None,
            claim_token: None,
            persist: None,
        },
    );
    assert_eq!(err_kind(&resp), ErrorKind::AuthFailed);
    assert!(!store.has_value("default/K"));
}

/// A get against a guarded key with no requester chain fails-closed
/// without touching the retrieval chain (proven by the value never
/// being read: the response is AuthFailed, not the value).
#[test]
fn get_denied_when_guarded_and_requester_chain_missing() {
    let clock = FakeClock::new();
    let (mut store, cap) = store_with_cap();
    let runner = CountingRunner::new(b"x");
    // Install a guarded value.
    let setter_chain = vec![gp(proc(100, "zsh"), None)];
    let setter_ctx = ctx_with_guard(
        &AllowAll,
        &runner,
        &clock,
        &cap,
        Some(&setter_chain),
        Some(GetterAuditToken {
            euid: 501,
            ruid: 501,
        }),
        default_policy(),
    );
    assert!(
        handle_request(
            &mut store,
            &setter_ctx,
            Request::KvSet {
                key: "default/K".into(),
                source: SetSource::Static {
                    value_b64: encode_b64(b"v"),
                },
                soft_ttl_secs: None,
                hard_ttl_secs: None,
                guard_constraints: vec![GuardConstraintWire::SameUser],
                expected_version: None,
                claim_token: None,
                persist: None,
            },
        )
        .is_ok()
    );

    // Getter has NO chain.
    let getter_ctx = ctx(&AllowAll, &runner, &clock, &cap); // guard_chain: None
    let resp = handle_request(
        &mut store,
        &getter_ctx,
        Request::KvGet {
            key: "default/K".into(),
            dry_run: false,
        },
    );
    assert_eq!(err_kind(&resp), ErrorKind::AuthFailed);
}

/// A guarded, definition-backed key whose guard denies the getter
/// must NOT run the source command (the whole point of gating the
/// guard before the retrieval chain - no TouchID / no regeneration
/// on a denied requester).
#[test]
fn guarded_definition_denial_does_not_run_the_source() {
    let clock = FakeClock::new();
    let (mut store, cap) = store_with_cap();
    let runner = CountingRunner::new(b"regen");
    // Setter registers a command definition then a guarded set
    // (guard sits on the value the set produced).
    let setter_chain = vec![gp(proc(100, "zsh"), None)];
    let setter_ctx = ctx_with_guard(
        &AllowAll,
        &runner,
        &clock,
        &cap,
        Some(&setter_chain),
        Some(GetterAuditToken {
            euid: 501,
            ruid: 501,
        }),
        default_policy(),
    );
    assert!(
        handle_request(
            &mut store,
            &setter_ctx,
            define_cmd("default/K", &["echo", "x"])
        )
        .is_ok()
    );
    assert!(
        handle_request(
            &mut store,
            &setter_ctx,
            Request::KvSet {
                key: "default/K".into(),
                source: SetSource::Static {
                    value_b64: encode_b64(b"v"),
                },
                soft_ttl_secs: None,
                hard_ttl_secs: None,
                guard_constraints: vec![GuardConstraintWire::SameUser],
                expected_version: None,
                claim_token: None,
                persist: None,
            },
        )
        .is_ok()
    );
    // The set may have called `set` on the value which does not run
    // the runner; the runner count so far is 0.
    assert_eq!(runner.runs(), 0);
    // A denied getter must not trigger regeneration.
    let getter_chain = vec![gp(proc(200, "zsh"), None)];
    let getter_ctx = ctx_with_guard(
        &AllowAll,
        &runner,
        &clock,
        &cap,
        Some(&getter_chain),
        Some(GetterAuditToken {
            euid: 999,
            ruid: 999,
        }),
        default_policy(),
    );
    let resp = handle_request(
        &mut store,
        &getter_ctx,
        Request::KvGet {
            key: "default/K".into(),
            dry_run: false,
        },
    );
    assert_eq!(err_kind(&resp), ErrorKind::AuthFailed);
    assert_eq!(runner.runs(), 0, "denied guard must not run source");
}

/// `kv list` surfaces a `guard_summary` for guarded entries - with a
/// `(weak)` marker on `command=` entries and strong-first ordering
///.
#[test]
fn kv_list_surfaces_guard_summary_with_weak_marker() {
    let clock = FakeClock::new();
    let (mut store, cap) = store_with_cap();
    let runner = CountingRunner::new(b"x");
    let chain = vec![gp(proc(100, "zsh"), None)];
    let c = ctx_with_guard(
        &AllowAll,
        &runner,
        &clock,
        &cap,
        Some(&chain),
        Some(GetterAuditToken {
            euid: 501,
            ruid: 501,
        }),
        default_policy(),
    );
    // Both a strong (same-user) and a weak (command=) constraint.
    assert!(
        handle_request(
            &mut store,
            &c,
            Request::KvSet {
                key: "default/K".into(),
                source: SetSource::Static {
                    value_b64: encode_b64(b"v"),
                },
                soft_ttl_secs: None,
                hard_ttl_secs: None,
                guard_constraints: vec![
                    GuardConstraintWire::Command { name: "git".into() },
                    GuardConstraintWire::SameUser,
                ],
                expected_version: None,
                claim_token: None,
                persist: None,
            },
        )
        .is_ok()
    );
    let resp = handle_request(&mut store, &c, Request::KvList);
    let entries = match resp {
        Response::Success(ok) => match ok.payload {
            OkPayload::List { entries, .. } => entries,
            other => panic!("expected List, got {other:?}"),
        },
        other => panic!("expected List ok, got {other:?}"),
    };
    let e = entries
        .into_iter()
        .find(|e| e.name == "default/K")
        .expect("entry must be present");
    let summary = e.guard_summary.expect("guarded entry must carry summary");
    // Strong first, weak last; the weak `command` marker is present.
    assert_eq!(summary[0], "same-user", "strong-first: {summary:?}");
    assert!(summary.last().unwrap().contains("(weak)"), "{summary:?}");
    assert!(summary.iter().any(|s| s.contains("command (git)")));
}

// ---- same-shell / same-ancestor E2E allow + deny ----
//
// The pin construction path: a `--require-same-shell`
// (or `--require-same-ancestor=NAME`) set must extract a pinnable
// process from the setter's chain, install the record with that
// pinned identity, and let the same-entity getter pass while
// denying a chain that has the same basename but a different
// pid+start_time (= a *different* process instance). The tests here
// exercise the pin construction on set and the pin-based
// discrimination on get through `handle_request` end-to-end.

/// same-shell allow: the same chain (same pid + start_time) passes.
#[test]
fn same_shell_guarded_set_then_get_from_same_chain_passes() {
    let clock = FakeClock::new();
    let (mut store, cap) = store_with_cap();
    let runner = CountingRunner::new(b"x");
    // Setter chain has an identifiable zsh at pid=100 / start=100s.
    let chain = vec![gp(proc(100, "zsh"), None)];
    let token = Some(GetterAuditToken {
        euid: 501,
        ruid: 501,
    });
    let c = ctx_with_guard(
        &AllowAll,
        &runner,
        &clock,
        &cap,
        Some(&chain),
        token,
        default_policy(),
    );
    let set = handle_request(
        &mut store,
        &c,
        Request::KvSet {
            key: "default/K".into(),
            source: SetSource::Static {
                value_b64: encode_b64(b"v"),
            },
            soft_ttl_secs: Some(SOFT),
            hard_ttl_secs: Some(HARD),
            guard_constraints: vec![GuardConstraintWire::SameShell],
            expected_version: None,
            claim_token: None,
            persist: None,
        },
    );
    // The set succeeds and the ack names the applied kind.
    assert_eq!(set_guard_applied(&set), vec!["same-shell".to_string()]);
    assert!(store.guard_of("default/K").is_some(), "guard installed");

    // Same chain (identical pid + start_time) reads successfully -
    // the pin extracted from setter matches the getter chain entry.
    let get_resp = handle_request(
        &mut store,
        &c,
        Request::KvGet {
            key: "default/K".into(),
            dry_run: false,
        },
    );
    assert_eq!(get_value(&get_resp), b"v");
}

/// same-shell deny: a chain whose zsh has a *different* start_time
/// (same basename, but a *different* process instance - the pid
/// reuse / instance-mismatch case) is
/// denied. This proves the pin discriminates on pid + start_time,
/// not just basename.
#[test]
fn same_shell_guarded_set_then_get_from_different_start_time_is_denied() {
    let clock = FakeClock::new();
    let (mut store, cap) = store_with_cap();
    let runner = CountingRunner::new(b"x");
    // Setter chain: zsh at pid=100 / start=100s (from `proc()`).
    let setter_chain = vec![gp(proc(100, "zsh"), None)];
    let token = Some(GetterAuditToken {
        euid: 501,
        ruid: 501,
    });
    let setter_ctx = ctx_with_guard(
        &AllowAll,
        &runner,
        &clock,
        &cap,
        Some(&setter_chain),
        token,
        default_policy(),
    );
    assert!(
        handle_request(
            &mut store,
            &setter_ctx,
            Request::KvSet {
                key: "default/K".into(),
                source: SetSource::Static {
                    value_b64: encode_b64(b"v"),
                },
                soft_ttl_secs: Some(SOFT),
                hard_ttl_secs: Some(HARD),
                guard_constraints: vec![GuardConstraintWire::SameShell],
                expected_version: None,
                claim_token: None,
                persist: None,
            },
        )
        .is_ok()
    );

    // Getter chain: still a "zsh" at pid=100 but a *different*
    // start_time - a distinct process instance under pid reuse.
    let mut different = proc(100, "zsh");
    different.start_time = Some(9999);
    let getter_chain = vec![gp(different, None)];
    let getter_ctx = ctx_with_guard(
        &AllowAll,
        &runner,
        &clock,
        &cap,
        Some(&getter_chain),
        token,
        default_policy(),
    );
    let resp = handle_request(
        &mut store,
        &getter_ctx,
        Request::KvGet {
            key: "default/K".into(),
            dry_run: false,
        },
    );
    assert_eq!(err_kind(&resp), ErrorKind::AuthFailed);
    assert!(
        err_msg(&resp).contains("same-ancestor"),
        "denial names the same-ancestor kind: {:?}",
        err_msg(&resp)
    );
}

/// --require-same-ancestor=/absolute/path form: pin resolution goes
/// through `pin_ancestor_by_path` (not the basename branch), and a
/// get from the same chain passes.
#[test]
fn same_ancestor_by_absolute_path_set_and_get_end_to_end() {
    let clock = FakeClock::new();
    let (mut store, cap) = store_with_cap();
    let runner = CountingRunner::new(b"x");
    // `proc(200, "git")` places the executable at `/usr/bin/git`.
    let chain = vec![gp(proc(200, "git"), None), gp(proc(50, "zsh"), None)];
    let token = Some(GetterAuditToken {
        euid: 501,
        ruid: 501,
    });
    let c = ctx_with_guard(
        &AllowAll,
        &runner,
        &clock,
        &cap,
        Some(&chain),
        token,
        default_policy(),
    );
    // A path with a leading `/` takes the pin_ancestor_by_path branch.
    let set = handle_request(
        &mut store,
        &c,
        Request::KvSet {
            key: "default/K".into(),
            source: SetSource::Static {
                value_b64: encode_b64(b"v"),
            },
            soft_ttl_secs: Some(SOFT),
            hard_ttl_secs: Some(HARD),
            guard_constraints: vec![GuardConstraintWire::SameAncestor {
                name: "/usr/bin/git".to_string(),
            }],
            expected_version: None,
            claim_token: None,
            persist: None,
        },
    );
    assert_eq!(set_guard_applied(&set), vec!["same-ancestor".to_string()]);
    assert!(store.guard_of("default/K").is_some());

    // Same chain: the getter finds the same entity -> allow.
    let get_resp = handle_request(
        &mut store,
        &c,
        Request::KvGet {
            key: "default/K".into(),
            dry_run: false,
        },
    );
    assert_eq!(get_value(&get_resp), b"v");

    // A chain where the same basename is at a *different* absolute
    // path (`/opt/bin/git`) does NOT satisfy the pinned entity -
    // pid + start_time comparison rejects. This pins the path branch
    // as distinct from the basename branch.
    let other = ProcessInfo {
        pid: 900,
        ppid: Some(1),
        path: Some("/opt/bin/git".to_string()),
        start_time: Some(900),
    };
    let other_chain = vec![gp(other, None), gp(proc(50, "zsh"), None)];
    let other_ctx = ctx_with_guard(
        &AllowAll,
        &runner,
        &clock,
        &cap,
        Some(&other_chain),
        token,
        default_policy(),
    );
    let deny = handle_request(
        &mut store,
        &other_ctx,
        Request::KvGet {
            key: "default/K".into(),
            dry_run: false,
        },
    );
    assert_eq!(err_kind(&deny), ErrorKind::AuthFailed);
}

// ---- set failures preserve the prior guard ----
//
// A `kv.set` that fails on wire-level validation (TTL out of range,
// malformed base64) must not touch the store's guard record: the
// prior guard on the same key stays intact. Otherwise a failed
// set-with-bad-input could be a silent way to clear a guard.

/// Bad TTL rejected: guard from a prior guarded set stays intact.
#[test]
fn set_with_bad_ttl_keeps_prior_guard_intact() {
    let clock = FakeClock::new();
    let (mut store, cap) = store_with_cap();
    let runner = CountingRunner::new(b"x");
    let chain = vec![gp(proc(100, "zsh"), None)];
    let c = ctx_with_guard(
        &AllowAll,
        &runner,
        &clock,
        &cap,
        Some(&chain),
        Some(GetterAuditToken {
            euid: 501,
            ruid: 501,
        }),
        default_policy(),
    );
    // Install a guard first.
    assert!(
        handle_request(
            &mut store,
            &c,
            Request::KvSet {
                key: "default/K".into(),
                source: SetSource::Static {
                    value_b64: encode_b64(b"first"),
                },
                soft_ttl_secs: Some(SOFT),
                hard_ttl_secs: Some(HARD),
                guard_constraints: vec![GuardConstraintWire::SameUser],
                expected_version: None,
                claim_token: None,
                persist: None,
            },
        )
        .is_ok()
    );
    let before = store
        .guard_of("default/K")
        .cloned()
        .expect("guard installed by first set");

    // Second set: soft > hard is a Ttl::new BadRequest - but this
    // is caught *after* plan_guard_record. The guard planning path
    // must not have side effects on the store, and the failed set
    // must not clear the prior record either.
    let resp = handle_request(
        &mut store,
        &c,
        Request::KvSet {
            key: "default/K".into(),
            source: SetSource::Static {
                value_b64: encode_b64(b"second"),
            },
            soft_ttl_secs: Some(1000),
            hard_ttl_secs: Some(1),
            guard_constraints: Vec::new(),
            expected_version: None,
            claim_token: None,
            persist: None,
        },
    );
    assert_eq!(err_kind(&resp), ErrorKind::BadRequest);
    let after = store
        .guard_of("default/K")
        .cloned()
        .expect("guard must survive failed set");
    assert_eq!(before, after, "prior guard record preserved verbatim");
}

/// Bad base64 rejected: guard from a prior guarded set stays intact.
#[test]
fn set_with_bad_base64_keeps_prior_guard_intact() {
    let clock = FakeClock::new();
    let (mut store, cap) = store_with_cap();
    let runner = CountingRunner::new(b"x");
    let chain = vec![gp(proc(100, "zsh"), None)];
    let c = ctx_with_guard(
        &AllowAll,
        &runner,
        &clock,
        &cap,
        Some(&chain),
        Some(GetterAuditToken {
            euid: 501,
            ruid: 501,
        }),
        default_policy(),
    );
    assert!(
        handle_request(
            &mut store,
            &c,
            Request::KvSet {
                key: "default/K".into(),
                source: SetSource::Static {
                    value_b64: encode_b64(b"first"),
                },
                soft_ttl_secs: Some(SOFT),
                hard_ttl_secs: Some(HARD),
                guard_constraints: vec![GuardConstraintWire::SameUser],
                expected_version: None,
                claim_token: None,
                persist: None,
            },
        )
        .is_ok()
    );
    let before = store
        .guard_of("default/K")
        .cloned()
        .expect("guard installed");

    let resp = handle_request(
        &mut store,
        &c,
        Request::KvSet {
            key: "default/K".into(),
            source: SetSource::Static {
                value_b64: "not!base64!".into(),
            },
            soft_ttl_secs: None,
            hard_ttl_secs: None,
            guard_constraints: Vec::new(),
            expected_version: None,
            claim_token: None,
            persist: None,
        },
    );
    assert_eq!(err_kind(&resp), ErrorKind::BadRequest);
    let after = store
        .guard_of("default/K")
        .cloned()
        .expect("guard must survive failed set");
    assert_eq!(before, after);
}

/// The positive ack is present when a guard was applied and empty
/// (`Vec::new()`) when it was not: the shape used by the client to
/// detect a mixed-version silent no-op (an old daemon replies with
/// no `guard_applied` field => decodes to empty via
/// `#[serde(default)]`; a new daemon with a guarded set decodes to
/// a non-empty list).
#[test]
fn set_positive_ack_shape_distinguishes_guarded_from_unguarded() {
    let clock = FakeClock::new();
    let (mut store, cap) = store_with_cap();
    let runner = CountingRunner::new(b"x");
    let c = ctx(&AllowAll, &runner, &clock, &cap);
    // Unguarded: guard_applied is empty (skip_serializing_if strips
    // it from the wire, matching the old-daemon shape).
    let resp = handle_request(&mut store, &c, set_static(b"v1"));
    assert!(set_guard_applied(&resp).is_empty());
}

fn dry_get(key: &str) -> Request {
    Request::KvGet {
        key: key.into(),
        dry_run: true,
    }
}

/// Assert a response is a value-free dry-run success (no value carried).
fn assert_verified(resp: &Response) {
    match resp {
        Response::Success(ok) => match &ok.payload {
            OkPayload::GetVerified { verified, .. } => assert!(*verified),
            other => panic!("expected GetVerified, got {other:?}"),
        },
        Response::Failure(e) => panic!("expected verified ok, got error: {e:?}"),
    }
    // And the serialized form must never carry a value field.
    let line = format!("{resp:?}");
    assert!(
        !line.contains("value_b64"),
        "dry-run leaked a value: {line}"
    );
}

#[test]
fn dry_run_get_static_value_returns_verified_without_value() {
    let clock = FakeClock::new();
    let (mut store, cap) = store_with_cap();
    let runner = CountingRunner::new(b"x");
    let c = ctx(&AllowAll, &runner, &clock, &cap);
    assert!(handle_request(&mut store, &c, set_static(b"hunter2")).is_ok());
    let resp = handle_request(&mut store, &c, dry_get("default/K"));
    assert_verified(&resp);
    let line = format!("{resp:?}");
    assert!(
        !line.contains("hunter2"),
        "dry-run leaked the value: {line}"
    );
}

#[test]
fn dry_run_get_runs_full_lazy_chain() {
    // dry-run is NOT shallow - a definition-only key is lazily
    // produced (the command runs) even though the value is not returned.
    let clock = FakeClock::new();
    let (mut store, cap) = store_with_cap();
    let runner = CountingRunner::new(b"from-cmd");
    let c = ctx(&AllowAll, &runner, &clock, &cap);
    assert!(handle_request(&mut store, &c, define_cmd("default/K", &["echo", "x"])).is_ok());
    assert_eq!(runner.runs(), 0);
    let resp = handle_request(&mut store, &c, dry_get("default/K"));
    assert_verified(&resp);
    assert_eq!(
        runner.runs(),
        1,
        "dry-run still runs the upstream (full chain)"
    );
}

#[test]
fn dry_run_get_missing_key_is_not_found() {
    let clock = FakeClock::new();
    let (mut store, cap) = store_with_cap();
    let runner = CountingRunner::new(b"x");
    let c = ctx(&AllowAll, &runner, &clock, &cap);
    let resp = handle_request(&mut store, &c, dry_get("default/ghost"));
    assert_eq!(err_kind(&resp), ErrorKind::NotFound);
}

#[test]
fn dry_run_get_auth_failure_is_reported_like_reveal() {
    // A dry-run still honors the auth gate.
    let clock = FakeClock::new();
    let (mut store, cap) = store_with_cap();
    let runner = CountingRunner::new(b"x");
    let c = ctx(&DenyAll, &runner, &clock, &cap);
    handle_request(&mut store, &c, define_cmd("default/K", &["echo", "x"]));
    let resp = handle_request(&mut store, &c, dry_get("default/K"));
    assert_eq!(err_kind(&resp), ErrorKind::AuthFailed);
}

#[test]
fn get_missing_key_is_not_found() {
    let clock = FakeClock::new();
    let (mut store, cap) = store_with_cap();
    let runner = CountingRunner::new(b"x");
    let c = ctx(&AllowAll, &runner, &clock, &cap);
    let resp = handle_request(
        &mut store,
        &c,
        Request::KvGet {
            key: "default/ghost".into(),
            dry_run: false,
        },
    );
    assert_eq!(err_kind(&resp), ErrorKind::NotFound);
}

#[test]
fn define_defers_run_until_first_get() {
    // define registers but does not run; the first get lazily
    // produces the value (one run), and a second get is a cache hit (no run).
    let clock = FakeClock::new();
    let (mut store, cap) = store_with_cap();
    let runner = CountingRunner::new(b"from-cmd");
    let c = ctx(&AllowAll, &runner, &clock, &cap);
    assert!(handle_request(&mut store, &c, define_cmd("default/K", &["echo", "x"])).is_ok());
    assert_eq!(runner.runs(), 0, "define must not run the command");
    let resp = handle_request(
        &mut store,
        &c,
        Request::KvGet {
            key: "default/K".into(),
            dry_run: false,
        },
    );
    assert_eq!(get_value(&resp), b"from-cmd");
    assert_eq!(runner.runs(), 1, "first get runs once (lazy)");
    let resp = handle_request(
        &mut store,
        &c,
        Request::KvGet {
            key: "default/K".into(),
            dry_run: false,
        },
    );
    assert_eq!(get_value(&resp), b"from-cmd");
    assert_eq!(runner.runs(), 1, "second get is a cache hit");
}

#[test]
fn define_idempotent_same_def_is_ok_conflict_is_bad_request() {
    let clock = FakeClock::new();
    let (mut store, cap) = store_with_cap();
    let runner = CountingRunner::new(b"x");
    let c = ctx(&AllowAll, &runner, &clock, &cap);
    assert!(
        handle_request(
            &mut store,
            &c,
            define_cmd("default/K", &["op", "read", "a"])
        )
        .is_ok()
    );
    // Identical definition: idempotent no-op.
    assert!(
        handle_request(
            &mut store,
            &c,
            define_cmd("default/K", &["op", "read", "a"])
        )
        .is_ok()
    );
    // Different argv: conflict.
    let resp = handle_request(
        &mut store,
        &c,
        define_cmd("default/K", &["op", "read", "b"]),
    );
    assert_eq!(err_kind(&resp), ErrorKind::BadRequest);
}

// ---- reserved-namespace bouncer ----

#[test]
fn set_into_reserved_authsock_namespace_is_bad_request() {
    // A wire `kv.set` targeting the reserved `authsock` namespace is refused:
    // that space holds daemon-internal op keys, never user writes. The store
    // must not gain the key.
    let clock = FakeClock::new();
    let (mut store, cap) = store_with_cap();
    let runner = CountingRunner::new(b"x");
    let c = ctx(&AllowAll, &runner, &clock, &cap);
    let req = Request::KvSet {
        key: "authsock/op_itemABC".into(),
        source: SetSource::Static {
            value_b64: encode_b64(b"v"),
        },
        soft_ttl_secs: None,
        hard_ttl_secs: None,
        guard_constraints: Vec::new(),
        expected_version: None,
        claim_token: None,
        persist: None,
    };
    assert_eq!(
        err_kind(&handle_request(&mut store, &c, req)),
        ErrorKind::BadRequest
    );
    assert!(
        !store.has_value("authsock/op_itemABC"),
        "reserved write must not land"
    );
}

#[test]
fn define_into_reserved_authsock_namespace_is_bad_request() {
    // The same bouncer applies to `kv.define`: a user cannot register a
    // definition inside the reserved namespace.
    let clock = FakeClock::new();
    let (mut store, cap) = store_with_cap();
    let runner = CountingRunner::new(b"x");
    let c = ctx(&AllowAll, &runner, &clock, &cap);
    let resp = handle_request(
        &mut store,
        &c,
        define_cmd("authsock/op_itemABC", &["echo", "x"]),
    );
    assert_eq!(err_kind(&resp), ErrorKind::BadRequest);
    assert!(
        !store.is_defined("authsock/op_itemABC"),
        "reserved define must not land"
    );
}

#[test]
fn set_non_reserved_namespace_still_works() {
    // The bouncer is namespace-specific: an ordinary namespace is unaffected
    // (a key merely *containing* the reserved word as a KEY is fine too).
    let clock = FakeClock::new();
    let (mut store, cap) = store_with_cap();
    let runner = CountingRunner::new(b"x");
    let c = ctx(&AllowAll, &runner, &clock, &cap);
    // `default/authsock` = namespace `default`, key `authsock` - allowed.
    let req = Request::KvSet {
        key: "default/authsock".into(),
        source: SetSource::Static {
            value_b64: encode_b64(b"v"),
        },
        soft_ttl_secs: None,
        hard_ttl_secs: None,
        guard_constraints: Vec::new(),
        expected_version: None,
        claim_token: None,
        persist: None,
    };
    assert!(handle_request(&mut store, &c, req).is_ok());
    assert!(store.has_value("default/authsock"));
}

#[test]
fn wire_get_into_reserved_authsock_namespace_is_bad_request() {
    // Confidentiality symmetry to the write bouncer: the
    // `authsock` namespace holds op private-key PEM the daemon composes and
    // serves only over the SSH agent SIGN path. Even a value already resident
    // there (seeded directly here, as the daemon's own op composition does)
    // must never be revealed over a wire `kv.get`. The refusal is an explicit
    // BadRequest matching the write bouncer's shape (interface symmetry over
    // existence-hiding), and it names the reservation so the caller sees why.
    let clock = FakeClock::new();
    let (mut store, cap) = store_with_cap();
    let runner = CountingRunner::new(b"x");
    let c = ctx(&AllowAll, &runner, &clock, &cap);
    let ttl = Ttl::new(
        Some(Duration::from_secs(SOFT)),
        Some(Duration::from_secs(HARD)),
    )
    .unwrap();
    store
        .set(
            "authsock/op_itemABC",
            ValueSource::Static,
            SecretBytes::new(b"PEM".to_vec()),
            ttl,
            &cap,
            &clock,
        )
        .unwrap();
    let resp = handle_request(
        &mut store,
        &c,
        Request::KvGet {
            key: "authsock/op_itemABC".into(),
            dry_run: false,
        },
    );
    assert_eq!(err_kind(&resp), ErrorKind::BadRequest);
    let msg = err_msg(&resp);
    assert!(msg.contains("reserved"), "must name the reservation: {msg}");
    assert!(msg.contains("authsock"), "must name the namespace: {msg}");
}

#[test]
fn wire_get_reserved_namespace_does_not_run_the_source() {
    // The policy sits *before* the retrieval chain, so a definition-backed
    // reserved key is refused without ever running its source command - the op
    // private-key fetch (and thus the PEM) never happens. Proven by the
    // runner's run count staying at zero. The definition is registered
    // directly (the daemon's internal path), bypassing the write bouncer a
    // wire `kv.define` would hit.
    let clock = FakeClock::new();
    let (mut store, cap) = store_with_cap();
    let runner = CountingRunner::new(b"PEM");
    let c = ctx(&AllowAll, &runner, &clock, &cap);
    let ttl = Ttl::new(None, None).unwrap();
    store
        .define(
            "authsock/op_itemABC",
            ValueSource::command(vec!["echo".into(), "PEM".into()]),
            ttl,
        )
        .unwrap();
    let resp = handle_request(
        &mut store,
        &c,
        Request::KvGet {
            key: "authsock/op_itemABC".into(),
            dry_run: false,
        },
    );
    assert_eq!(err_kind(&resp), ErrorKind::BadRequest);
    assert_eq!(runner.runs(), 0, "reserved get must not run the source");
}

#[test]
fn wire_get_non_reserved_namespace_still_reads() {
    // Namespace-specific: the reserved *word* as an ordinary KEY is fine.
    // `default/authsock` = namespace `default`, key `authsock` - reads as
    // usual, confirming the policy keys off the namespace, not the substring.
    let clock = FakeClock::new();
    let (mut store, cap) = store_with_cap();
    let runner = CountingRunner::new(b"x");
    let c = ctx(&AllowAll, &runner, &clock, &cap);
    let ttl = Ttl::new(
        Some(Duration::from_secs(SOFT)),
        Some(Duration::from_secs(HARD)),
    )
    .unwrap();
    store
        .set(
            "default/authsock",
            ValueSource::Static,
            SecretBytes::new(b"ok".to_vec()),
            ttl,
            &cap,
            &clock,
        )
        .unwrap();
    let resp = handle_request(
        &mut store,
        &c,
        Request::KvGet {
            key: "default/authsock".into(),
            dry_run: false,
        },
    );
    assert_eq!(get_value(&resp), b"ok");
}

#[test]
fn wire_del_into_reserved_authsock_namespace_still_works() {
    // Availability/rotation axis - distinct from confidentiality. `kv del` is
    // *not* gated on the reserved namespace: dropping a resident op key is how
    // a rotation clears the stale entry, and del reveals no value. A seeded
    // reserved value is removed successfully. This is the deliberate asymmetry
    // with the read/write bouncers (get/set/define blocked, del allowed).
    let clock = FakeClock::new();
    let (mut store, cap) = store_with_cap();
    let runner = CountingRunner::new(b"x");
    let c = ctx(&AllowAll, &runner, &clock, &cap);
    let ttl = Ttl::new(
        Some(Duration::from_secs(SOFT)),
        Some(Duration::from_secs(HARD)),
    )
    .unwrap();
    store
        .set(
            "authsock/op_itemABC",
            ValueSource::Static,
            SecretBytes::new(b"PEM".to_vec()),
            ttl,
            &cap,
            &clock,
        )
        .unwrap();
    let resp = handle_request(
        &mut store,
        &c,
        Request::KvDel {
            key: "authsock/op_itemABC".into(),
            with_define: false,
        },
    );
    assert!(resp.is_ok(), "del on reserved ns must succeed (rotation)");
    assert!(
        !store.has_value("authsock/op_itemABC"),
        "reserved value must be removed by del"
    );
}

#[test]
fn wire_list_still_names_reserved_keys() {
    // `kv.list` is value-free (key names + metadata only, ), so it is
    // *not* gated: a reserved key's existence is already discoverable and no
    // secret leaks. Behavior is unchanged - the reserved key name still appears
    // in the listing.
    let clock = FakeClock::new();
    let (mut store, cap) = store_with_cap();
    let runner = CountingRunner::new(b"x");
    let c = ctx(&AllowAll, &runner, &clock, &cap);
    let ttl = Ttl::new(
        Some(Duration::from_secs(SOFT)),
        Some(Duration::from_secs(HARD)),
    )
    .unwrap();
    store
        .set(
            "authsock/op_itemABC",
            ValueSource::Static,
            SecretBytes::new(b"PEM".to_vec()),
            ttl,
            &cap,
            &clock,
        )
        .unwrap();
    let resp = handle_request(&mut store, &c, Request::KvList);
    let keys = match &resp {
        Response::Success(ok) => match &ok.payload {
            OkPayload::List { keys, .. } => keys.clone(),
            other => panic!("expected list payload, got {other:?}"),
        },
        Response::Failure(e) => panic!("expected list ok, got error: {e:?}"),
    };
    assert!(
        keys.iter().any(|k| k == "authsock/op_itemABC"),
        "list must still name the reserved key (value-free): {keys:?}"
    );
}

#[test]
fn set_non_ns_key_is_bad_request() {
    // The wire semantic gate still requires a full NS/KEY: a bare
    // KEY on the wire is refused even though the core would accept it.
    let clock = FakeClock::new();
    let (mut store, cap) = store_with_cap();
    let runner = CountingRunner::new(b"x");
    let c = ctx(&AllowAll, &runner, &clock, &cap);
    let req = Request::KvSet {
        key: "BARE".into(),
        source: SetSource::Static {
            value_b64: encode_b64(b"v"),
        },
        soft_ttl_secs: None,
        hard_ttl_secs: None,
        guard_constraints: Vec::new(),
        expected_version: None,
        claim_token: None,
        persist: None,
    };
    assert_eq!(
        err_kind(&handle_request(&mut store, &c, req)),
        ErrorKind::BadRequest
    );
}

#[test]
fn define_empty_argv_is_bad_request() {
    let clock = FakeClock::new();
    let (mut store, cap) = store_with_cap();
    let runner = CountingRunner::new(b"x");
    let c = ctx(&AllowAll, &runner, &clock, &cap);
    // An empty `command.argv` is a kind-specific required-field violation
    //: source = "command" requires a non-empty argv.
    let req = Request::KvDefine {
        key: "default/K".into(),
        source: cmd_spec(&[]),
        soft_ttl_secs: None,
        hard_ttl_secs: None,
        meta: no_meta(),
    };
    assert_eq!(
        err_kind(&handle_request(&mut store, &c, req)),
        ErrorKind::BadRequest
    );
}

#[test]
fn lazy_generate_is_denied_when_auth_fails() {
    let clock = FakeClock::new();
    let (mut store, cap) = store_with_cap();
    let runner = CountingRunner::new(b"x");
    let c = ctx(&DenyAll, &runner, &clock, &cap);
    handle_request(&mut store, &c, define_cmd("default/K", &["echo", "x"]));
    let resp = handle_request(
        &mut store,
        &c,
        Request::KvGet {
            key: "default/K".into(),
            dry_run: false,
        },
    );
    assert_eq!(err_kind(&resp), ErrorKind::AuthFailed);
}

#[test]
fn set_with_soft_exceeding_hard_is_bad_request() {
    let clock = FakeClock::new();
    let (mut store, cap) = store_with_cap();
    let runner = CountingRunner::new(b"x");
    let c = ctx(&AllowAll, &runner, &clock, &cap);
    let req = Request::KvSet {
        key: "default/K".into(),
        source: SetSource::Static {
            value_b64: encode_b64(b"v"),
        },
        soft_ttl_secs: Some(100),
        hard_ttl_secs: Some(10),
        guard_constraints: Vec::new(),
        expected_version: None,
        claim_token: None,
        persist: None,
    };
    assert_eq!(
        err_kind(&handle_request(&mut store, &c, req)),
        ErrorKind::BadRequest
    );
}

#[test]
fn invalid_base64_value_is_bad_request() {
    let clock = FakeClock::new();
    let (mut store, cap) = store_with_cap();
    let runner = CountingRunner::new(b"x");
    let c = ctx(&AllowAll, &runner, &clock, &cap);
    let req = Request::KvSet {
        key: "default/K".into(),
        source: SetSource::Static {
            value_b64: "not!base64!".into(),
        },
        soft_ttl_secs: None,
        hard_ttl_secs: None,
        guard_constraints: Vec::new(),
        expected_version: None,
        claim_token: None,
        persist: None,
    };
    assert_eq!(
        err_kind(&handle_request(&mut store, &c, req)),
        ErrorKind::BadRequest
    );
}

#[test]
fn get_soft_expired_extends_via_authenticator() {
    let clock = FakeClock::new();
    let (mut store, cap) = store_with_cap();
    let runner = CountingRunner::new(b"x");
    let c = ctx(&AllowAll, &runner, &clock, &cap);
    handle_request(&mut store, &c, set_static(b"v"));
    clock.advance(Duration::from_secs(15)); // soft-expired
    let resp = handle_request(
        &mut store,
        &c,
        Request::KvGet {
            key: "default/K".into(),
            dry_run: false,
        },
    );
    assert_eq!(get_value(&resp), b"v", "AllowAll extends and returns value");
}

#[test]
fn get_soft_expired_denied_is_auth_failed() {
    let clock = FakeClock::new();
    let (mut store, cap) = store_with_cap();
    let runner = CountingRunner::new(b"x");
    let c = ctx(&DenyAll, &runner, &clock, &cap);
    handle_request(&mut store, &c, set_static(b"v"));
    clock.advance(Duration::from_secs(15));
    let resp = handle_request(
        &mut store,
        &c,
        Request::KvGet {
            key: "default/K".into(),
            dry_run: false,
        },
    );
    assert_eq!(err_kind(&resp), ErrorKind::AuthFailed);
}

#[test]
fn get_hard_expired_defined_key_regenerates() {
    let clock = FakeClock::new();
    let (mut store, cap) = store_with_cap();
    let runner = CountingRunner::new(b"fresh");
    let c = ctx(&AllowAll, &runner, &clock, &cap);
    handle_request(&mut store, &c, define_cmd("default/K", &["echo"]));
    // First get lazily produces the value (run 1).
    assert_eq!(
        get_value(&handle_request(
            &mut store,
            &c,
            Request::KvGet {
                key: "default/K".into(),
                dry_run: false
            }
        )),
        b"fresh"
    );
    clock.advance(Duration::from_secs(HARD)); // hard-expired
    let resp = handle_request(
        &mut store,
        &c,
        Request::KvGet {
            key: "default/K".into(),
            dry_run: false,
        },
    );
    assert_eq!(get_value(&resp), b"fresh");
    assert_eq!(runner.runs(), 2, "first get ran once, regenerate ran once");
}

#[test]
fn get_hard_expired_static_is_not_regenerable() {
    let clock = FakeClock::new();
    let (mut store, cap) = store_with_cap();
    let runner = CountingRunner::new(b"x");
    let c = ctx(&AllowAll, &runner, &clock, &cap);
    handle_request(&mut store, &c, set_static(b"v"));
    clock.advance(Duration::from_secs(HARD));
    let resp = handle_request(
        &mut store,
        &c,
        Request::KvGet {
            key: "default/K".into(),
            dry_run: false,
        },
    );
    assert_eq!(err_kind(&resp), ErrorKind::NotRegenerable);
}

#[test]
fn get_hard_expired_command_upstream_failure_is_reported() {
    let clock = FakeClock::new();
    let (mut store, cap) = store_with_cap();
    // Define + first get produces the value via a succeeding runner; then
    // swap to a failing runner so the post-hard-expiry regeneration fails.
    let ok_runner = CountingRunner::new(b"v");
    let c_ok = ctx(&AllowAll, &ok_runner, &clock, &cap);
    handle_request(&mut store, &c_ok, define_cmd("default/K", &["echo"]));
    // First get lazily produces the value.
    assert_eq!(
        get_value(&handle_request(
            &mut store,
            &c_ok,
            Request::KvGet {
                key: "default/K".into(),
                dry_run: false
            }
        )),
        b"v"
    );
    clock.advance(Duration::from_secs(HARD));
    let fail = FailingRunner;
    let c_fail = ctx(&AllowAll, &fail, &clock, &cap);
    let resp = handle_request(
        &mut store,
        &c_fail,
        Request::KvGet {
            key: "default/K".into(),
            dry_run: false,
        },
    );
    assert_eq!(err_kind(&resp), ErrorKind::UpstreamFailed);
}

#[test]
fn list_returns_sorted_keys() {
    let clock = FakeClock::new();
    let (mut store, cap) = store_with_cap();
    let runner = CountingRunner::new(b"x");
    let c = ctx(&AllowAll, &runner, &clock, &cap);
    for k in ["default/b", "default/a", "default/c"] {
        handle_request(
            &mut store,
            &c,
            Request::KvSet {
                key: k.into(),
                source: SetSource::Static {
                    value_b64: encode_b64(b"v"),
                },
                soft_ttl_secs: None,
                hard_ttl_secs: None,
                guard_constraints: Vec::new(),
                expected_version: None,
                claim_token: None,
                persist: None,
            },
        );
    }
    let resp = handle_request(&mut store, &c, Request::KvList);
    match resp {
        Response::Success(ok) => match ok.payload {
            OkPayload::List { keys, entries } => {
                assert_eq!(keys, vec!["default/a", "default/b", "default/c"]);
                // The metadata array is parallel and same length.
                assert_eq!(entries.len(), keys.len());
                assert!(
                    entries.iter().zip(keys.iter()).all(|(e, k)| &e.name == k),
                    "entries.name must align with keys"
                );
            }
            _ => panic!("not list"),
        },
        _ => panic!("expected ok"),
    }
}

#[test]
fn del_removes_and_reports() {
    let clock = FakeClock::new();
    let (mut store, cap) = store_with_cap();
    let runner = CountingRunner::new(b"x");
    let c = ctx(&AllowAll, &runner, &clock, &cap);
    handle_request(&mut store, &c, set_static(b"v"));
    let resp = handle_request(
        &mut store,
        &c,
        Request::KvDel {
            key: "default/K".into(),
            with_define: false,
        },
    );
    match resp {
        Response::Success(ok) => match ok.payload {
            OkPayload::Deleted { deleted } => assert!(deleted),
            _ => panic!("not deleted"),
        },
        _ => panic!("expected ok"),
    }
    // Second delete reports false.
    let resp = handle_request(
        &mut store,
        &c,
        Request::KvDel {
            key: "default/K".into(),
            with_define: false,
        },
    );
    match resp {
        Response::Success(ok) => match ok.payload {
            OkPayload::Deleted { deleted } => assert!(!deleted),
            _ => panic!("not deleted"),
        },
        _ => panic!("expected ok"),
    }
}

#[test]
fn status_lists_entries_without_values() {
    let clock = FakeClock::new();
    let (mut store, cap) = store_with_cap();
    let runner = CountingRunner::new(b"x");
    let c = ctx(&AllowAll, &runner, &clock, &cap);
    handle_request(&mut store, &c, set_static(b"secret-value"));
    let resp = handle_request(&mut store, &c, Request::Status);
    let line = format!("{resp:?}");
    assert!(
        !line.contains("secret-value"),
        "status must not leak values"
    );
    assert!(!line.contains(&encode_b64(b"secret-value")));
    match resp {
        Response::Success(ok) => match ok.payload {
            OkPayload::Status { pid, entries, .. } => {
                assert_eq!(pid, 1234);
                assert_eq!(entries.len(), 1);
                assert_eq!(entries[0].name, "default/K");
                assert_eq!(entries[0].state, "active");
                assert_eq!(entries[0].pin_remaining_secs, None);
            }
            _ => panic!("not status"),
        },
        _ => panic!("expected ok"),
    }
}

// ---- kv.pin / kv.unpin ----

fn pin(key: &str, secs: u64) -> Request {
    Request::KvPin {
        key: key.into(),
        duration_secs: secs,
    }
}

#[test]
fn pin_then_get_survives_soft_expiry() {
    let clock = FakeClock::new();
    let (mut store, cap) = store_with_cap();
    let runner = CountingRunner::new(b"x");
    let c = ctx(&AllowAll, &runner, &clock, &cap);
    handle_request(&mut store, &c, set_static(b"v"));
    // Pin for 1000s; then let the soft window (10s) lapse.
    let resp = handle_request(&mut store, &c, pin("default/K", 1000));
    assert!(resp.is_ok(), "pin ok: {resp:?}");
    clock.advance(Duration::from_secs(SOFT + 5));
    let resp = handle_request(
        &mut store,
        &c,
        Request::KvGet {
            key: "default/K".into(),
            dry_run: false,
        },
    );
    assert_eq!(get_value(&resp), b"v", "pinned value gettable past soft");
}

#[test]
fn pin_denied_is_auth_failed() {
    let clock = FakeClock::new();
    let (mut store, cap) = store_with_cap();
    let runner = CountingRunner::new(b"x");
    let c = ctx(&DenyAll, &runner, &clock, &cap);
    handle_request(&mut store, &c, set_static(b"v"));
    let resp = handle_request(&mut store, &c, pin("default/K", 1000));
    assert_eq!(err_kind(&resp), ErrorKind::AuthFailed);
}

#[test]
fn pin_missing_key_is_not_found() {
    let clock = FakeClock::new();
    let (mut store, cap) = store_with_cap();
    let runner = CountingRunner::new(b"x");
    let c = ctx(&AllowAll, &runner, &clock, &cap);
    assert_eq!(
        err_kind(&handle_request(&mut store, &c, pin("default/ghost", 100))),
        ErrorKind::NotFound
    );
}

#[test]
fn pin_hard_expired_is_rejected() {
    let clock = FakeClock::new();
    let (mut store, cap) = store_with_cap();
    let runner = CountingRunner::new(b"x");
    let c = ctx(&AllowAll, &runner, &clock, &cap);
    handle_request(&mut store, &c, set_static(b"v"));
    clock.advance(Duration::from_secs(HARD)); // hard-expired
    assert_eq!(
        err_kind(&handle_request(&mut store, &c, pin("default/K", 1000))),
        ErrorKind::HardExpired
    );
}

#[test]
fn unpin_returns_to_normal_and_missing_is_not_found() {
    let clock = FakeClock::new();
    let (mut store, cap) = store_with_cap();
    let runner = CountingRunner::new(b"x");
    let c = ctx(&AllowAll, &runner, &clock, &cap);
    handle_request(&mut store, &c, set_static(b"v"));
    handle_request(&mut store, &c, pin("default/K", 1000));
    // Unpin then soft-expire: the value is gated again.
    let resp = handle_request(
        &mut store,
        &c,
        Request::KvUnpin {
            key: "default/K".into(),
        },
    );
    match resp {
        Response::Success(ok) => match ok.payload {
            OkPayload::Unpinned { unpinned } => assert!(unpinned),
            _ => panic!("not unpinned"),
        },
        _ => panic!("expected ok"),
    }
    // Missing key unpin -> not found.
    assert_eq!(
        err_kind(&handle_request(
            &mut store,
            &c,
            Request::KvUnpin {
                key: "default/ghost".into()
            }
        )),
        ErrorKind::NotFound
    );
}

#[test]
fn status_reports_pin_remaining_seconds() {
    let clock = FakeClock::new();
    let (mut store, cap) = store_with_cap();
    let runner = CountingRunner::new(b"x");
    let c = ctx(&AllowAll, &runner, &clock, &cap);
    handle_request(&mut store, &c, set_static(b"v"));
    handle_request(&mut store, &c, pin("default/K", 1000));
    clock.advance(Duration::from_secs(100));
    let resp = handle_request(&mut store, &c, Request::Status);
    match resp {
        Response::Success(ok) => match ok.payload {
            OkPayload::Status { entries, .. } => {
                assert_eq!(entries[0].pin_remaining_secs, Some(900));
            }
            _ => panic!("not status"),
        },
        _ => panic!("expected ok"),
    }
}

// ---- OTP value type: handler-side derivation ----

/// The RFC 6238 SHA1 seed in base32.
const OTP_SEED_B32: &str = "GEZDGNBVGY3TQOJQGEZDGNBVGY3TQOJQ";

fn otp_wire_meta(params: &[(&str, &str)]) -> ValueMetaWire {
    ValueMetaWire {
        type_label: Some("otp".to_string()),
        params: params
            .iter()
            .map(|(k, v)| (k.to_string(), v.to_string()))
            .collect(),
    }
}

/// An otp *definition* whose command (`printf SEED`) yields `seed` as the
/// value. Value types live on definitions now, so this is the only
/// way to register an otp key.
fn define_otp_seed(key: &str, seed: &str, params: &[(&str, &str)]) -> Request {
    Request::KvDefine {
        key: key.into(),
        source: cmd_spec(&["printf", "%s", seed]),
        soft_ttl_secs: None,
        hard_ttl_secs: None,
        meta: otp_wire_meta(params),
    }
}

#[test]
fn otp_defined_seed_get_returns_code_not_seed() {
    // An otp definition: get derives a 6-digit code, never the seed (write-only).
    let clock = FakeClock::new();
    let (mut store, cap) = store_with_cap();
    let runner = PrintRunner;
    let c = ctx(&AllowAll, &runner, &clock, &cap);
    assert!(
        handle_request(
            &mut store,
            &c,
            define_otp_seed("default/OTP", OTP_SEED_B32, &[])
        )
        .is_ok()
    );

    let resp = handle_request(
        &mut store,
        &c,
        Request::KvGet {
            key: "default/OTP".into(),
            dry_run: false,
        },
    );
    let code = get_value(&resp);
    // Six ASCII digits.
    assert_eq!(code.len(), 6, "default otp digits");
    assert!(code.iter().all(|b| b.is_ascii_digit()), "code is digits");
    // The seed itself must never appear in the response.
    let line = format!("{resp:?}");
    assert!(!line.contains(OTP_SEED_B32), "seed must not leak: {line}");
    assert!(
        !line.contains(&encode_b64(OTP_SEED_B32.as_bytes())),
        "encoded seed must not leak"
    );
}

#[test]
fn otp_digits_param_controls_code_length() {
    let clock = FakeClock::new();
    let (mut store, cap) = store_with_cap();
    let runner = PrintRunner;
    let c = ctx(&AllowAll, &runner, &clock, &cap);
    handle_request(
        &mut store,
        &c,
        define_otp_seed("default/OTP", OTP_SEED_B32, &[("digits", "8")]),
    );
    let resp = handle_request(
        &mut store,
        &c,
        Request::KvGet {
            key: "default/OTP".into(),
            dry_run: false,
        },
    );
    assert_eq!(get_value(&resp).len(), 8);
}

#[test]
fn otp_defined_seed_derives_code_via_lazy_chain() {
    // An otp *definition* (command source): the command yields the seed, and
    // get derives a code from it (the seed is never returned).
    let clock = FakeClock::new();
    let (mut store, cap) = store_with_cap();
    let runner = PrintRunner;
    let c = ctx(&AllowAll, &runner, &clock, &cap);
    let define = Request::KvDefine {
        key: "default/OTP".into(),
        source: cmd_spec(&["printf", "%s", OTP_SEED_B32]),
        soft_ttl_secs: Some(SOFT),
        hard_ttl_secs: Some(HARD),
        meta: otp_wire_meta(&[("digits", "8")]),
    };
    assert!(handle_request(&mut store, &c, define).is_ok());
    let resp = handle_request(
        &mut store,
        &c,
        Request::KvGet {
            key: "default/OTP".into(),
            dry_run: false,
        },
    );
    let code = get_value(&resp);
    assert_eq!(code.len(), 8);
    let line = format!("{resp:?}");
    assert!(!line.contains(OTP_SEED_B32), "seed must not leak");
}

#[test]
fn otp_seed_from_otpauth_uri() {
    let clock = FakeClock::new();
    let (mut store, cap) = store_with_cap();
    let runner = PrintRunner;
    let c = ctx(&AllowAll, &runner, &clock, &cap);
    let uri = format!("otpauth://totp/Label?secret={OTP_SEED_B32}&digits=8");
    handle_request(&mut store, &c, define_otp_seed("default/OTP", &uri, &[]));
    let resp = handle_request(
        &mut store,
        &c,
        Request::KvGet {
            key: "default/OTP".into(),
            dry_run: false,
        },
    );
    assert_eq!(get_value(&resp).len(), 8, "digits read from the URI");
}

#[test]
fn otp_dry_run_masks_the_code() {
    // dry-run never returns the value - code or seed.
    let clock = FakeClock::new();
    let (mut store, cap) = store_with_cap();
    let runner = PrintRunner;
    let c = ctx(&AllowAll, &runner, &clock, &cap);
    handle_request(
        &mut store,
        &c,
        define_otp_seed("default/OTP", OTP_SEED_B32, &[]),
    );
    let resp = handle_request(
        &mut store,
        &c,
        Request::KvGet {
            key: "default/OTP".into(),
            dry_run: true,
        },
    );
    assert_verified(&resp);
    let line = format!("{resp:?}");
    assert!(
        !line.contains(OTP_SEED_B32),
        "seed must not leak in dry-run"
    );
    assert!(!line.contains("value_b64"), "no value carried");
}

#[test]
fn otp_bad_seed_is_bad_request_without_leaking() {
    // A seed that is neither base32 nor a URI: the lazy chain produces it, but
    // derivation fails at get time. The seed is not echoed.
    let clock = FakeClock::new();
    let (mut store, cap) = store_with_cap();
    let runner = PrintRunner;
    let c = ctx(&AllowAll, &runner, &clock, &cap);
    let bad = "this-is-not-a-valid-otp-seed";
    assert!(handle_request(&mut store, &c, define_otp_seed("default/OTP", bad, &[])).is_ok());
    let resp = handle_request(
        &mut store,
        &c,
        Request::KvGet {
            key: "default/OTP".into(),
            dry_run: false,
        },
    );
    assert_eq!(err_kind(&resp), ErrorKind::BadRequest);
    let line = format!("{resp:?}");
    assert!(!line.contains(bad), "seed must not leak: {line}");
}

#[test]
fn otp_type_appears_in_status_not_the_seed() {
    let clock = FakeClock::new();
    let (mut store, cap) = store_with_cap();
    let runner = PrintRunner;
    let c = ctx(&AllowAll, &runner, &clock, &cap);
    // Define + produce the value so a value entry also exists.
    handle_request(
        &mut store,
        &c,
        define_otp_seed("default/OTP", OTP_SEED_B32, &[]),
    );
    handle_request(
        &mut store,
        &c,
        Request::KvGet {
            key: "default/OTP".into(),
            dry_run: false,
        },
    );
    let resp = handle_request(&mut store, &c, Request::Status);
    match &resp {
        Response::Success(ok) => match &ok.payload {
            OkPayload::Status { entries, .. } => {
                assert_eq!(entries[0].value_type.as_deref(), Some("otp"));
            }
            _ => panic!("not status"),
        },
        _ => panic!("expected ok"),
    }
    let line = format!("{resp:?}");
    assert!(
        !line.contains(OTP_SEED_B32),
        "status must not leak the seed"
    );
}

#[test]
fn opaque_value_is_unchanged_by_otp_path() {
    // A non-otp value is returned verbatim (the derivation only triggers on
    // the otp type label).
    let clock = FakeClock::new();
    let (mut store, cap) = store_with_cap();
    let runner = CountingRunner::new(b"x");
    let c = ctx(&AllowAll, &runner, &clock, &cap);
    handle_request(&mut store, &c, set_static(b"plain-secret"));
    let resp = handle_request(
        &mut store,
        &c,
        Request::KvGet {
            key: "default/K".into(),
            dry_run: false,
        },
    );
    assert_eq!(get_value(&resp), b"plain-secret");
}

// ---- key-level process-access gate ----

/// Build a `ctx` with a key-policy table and a (possibly absent) requester
/// ancestry chain, for exercising the key-layer gate on `kv.get`.
fn ctx_gated<'a>(
    auth: &'a dyn Auth,
    runner: &'a dyn SourceRunner,
    clock: &'a FakeClock,
    cap: &'a Cap,
    policies: &'a [ProcessPolicy],
    requester: Option<&'a [ProcessInfo]>,
) -> Ctx<'a> {
    let mut c = ctx(auth, runner, clock, cap);
    c.ctx.kv_process_policies = policies;
    c.ctx.requester = requester;
    c
}

fn policies(entries: &[(&str, &[&str])]) -> Vec<ProcessPolicy> {
    entries
        .iter()
        .map(|(k, v)| ProcessPolicy {
            key: k.to_string(),
            allowed: v.iter().map(|s| s.to_string()).collect(),
        })
        .collect()
}

#[test]
fn get_restricted_key_admits_matching_requester() {
    let clock = FakeClock::new();
    let (mut store, cap) = store_with_cap();
    let runner = CountingRunner::new(b"x");
    let pol = policies(&[("default/K", &["ssh"])]);
    let chain = [proc(100, "ssh"), proc(50, "zsh")];

    // Seed the value with an unrestricted ctx (set is not gated by the key
    // layer - only get is), then read it through the restricted gate.
    let c_set = ctx(&AllowAll, &runner, &clock, &cap);
    handle_request(&mut store, &c_set, set_static(b"hunter2"));

    let c = ctx_gated(&AllowAll, &runner, &clock, &cap, &pol, Some(&chain));
    let resp = handle_request(
        &mut store,
        &c,
        Request::KvGet {
            key: "default/K".into(),
            dry_run: false,
        },
    );
    assert_eq!(get_value(&resp), b"hunter2");
}

#[test]
fn get_restricted_key_denies_non_matching_requester() {
    let clock = FakeClock::new();
    let (mut store, cap) = store_with_cap();
    let runner = CountingRunner::new(b"x");
    let pol = policies(&[("default/K", &["ssh"])]);
    let chain = [proc(100, "git"), proc(50, "zsh")];

    let c_set = ctx(&AllowAll, &runner, &clock, &cap);
    handle_request(&mut store, &c_set, set_static(b"hunter2"));

    let c = ctx_gated(&AllowAll, &runner, &clock, &cap, &pol, Some(&chain));
    let resp = handle_request(
        &mut store,
        &c,
        Request::KvGet {
            key: "default/K".into(),
            dry_run: false,
        },
    );
    // Denied: the requester's ancestry has no allowed basename. The value is
    // not revealed; the key's existence is not hidden (it is visible via list).
    assert_eq!(err_kind(&resp), ErrorKind::AuthFailed);
}

#[test]
fn get_restricted_key_with_unknown_requester_is_fail_closed() {
    let clock = FakeClock::new();
    let (mut store, cap) = store_with_cap();
    let runner = CountingRunner::new(b"x");
    let pol = policies(&[("default/K", &["ssh"])]);

    let c_set = ctx(&AllowAll, &runner, &clock, &cap);
    handle_request(&mut store, &c_set, set_static(b"hunter2"));

    // requester == None + a real restriction => fail-closed (denied).
    let c = ctx_gated(&AllowAll, &runner, &clock, &cap, &pol, None);
    let resp = handle_request(
        &mut store,
        &c,
        Request::KvGet {
            key: "default/K".into(),
            dry_run: false,
        },
    );
    assert_eq!(err_kind(&resp), ErrorKind::AuthFailed);
}

#[test]
fn get_unrestricted_key_admits_even_unknown_requester() {
    let clock = FakeClock::new();
    let (mut store, cap) = store_with_cap();
    let runner = CountingRunner::new(b"x");
    // K has no policy entry => no restriction (the common case).
    let pol = policies(&[("OTHER", &["ssh"])]);

    let c = ctx_gated(&AllowAll, &runner, &clock, &cap, &pol, None);
    handle_request(&mut store, &c, set_static(b"hunter2"));
    let resp = handle_request(
        &mut store,
        &c,
        Request::KvGet {
            key: "default/K".into(),
            dry_run: false,
        },
    );
    assert_eq!(get_value(&resp), b"hunter2");
}

#[test]
fn dry_run_get_is_also_gated() {
    let clock = FakeClock::new();
    let (mut store, cap) = store_with_cap();
    let runner = CountingRunner::new(b"x");
    let pol = policies(&[("default/K", &["ssh"])]);
    let chain = [proc(100, "git")];

    let c_set = ctx(&AllowAll, &runner, &clock, &cap);
    handle_request(&mut store, &c_set, set_static(b"hunter2"));

    // A dry-run get of a restricted key by a non-matching requester is denied
    // exactly like a reveal get (the policy is applied before the chain runs).
    let c = ctx_gated(&AllowAll, &runner, &clock, &cap, &pol, Some(&chain));
    let resp = handle_request(
        &mut store,
        &c,
        Request::KvGet {
            key: "default/K".into(),
            dry_run: true,
        },
    );
    assert_eq!(err_kind(&resp), ErrorKind::AuthFailed);
}

#[test]
fn restricted_key_get_denied_before_lazy_generation_runs() {
    // The policy must precede the (re-auth / command) retrieval chain: a denied
    // requester must not trigger the source command at all.
    let clock = FakeClock::new();
    let (mut store, cap) = store_with_cap();
    let runner = CountingRunner::new(b"generated");
    let pol = policies(&[("default/LAZY", &["ssh"])]);
    let chain = [proc(100, "git")];

    // Define LAZY (lazy: no value yet). A denied get must not run the command.
    let c_set = ctx(&AllowAll, &runner, &clock, &cap);
    handle_request(
        &mut store,
        &c_set,
        define_cmd("default/LAZY", &["echo", "x"]),
    );

    let c = ctx_gated(&AllowAll, &runner, &clock, &cap, &pol, Some(&chain));
    let resp = handle_request(
        &mut store,
        &c,
        Request::KvGet {
            key: "default/LAZY".into(),
            dry_run: false,
        },
    );
    assert_eq!(err_kind(&resp), ErrorKind::AuthFailed);
    assert_eq!(
        runner.runs(),
        0,
        "denied get must not run the source command"
    );
}

#[test]
fn mutating_commands_are_not_gated_by_the_key_layer() {
    // Only get is gated (what is controlled is the reading of the value). del/pin/unpin are reachable even by a
    // requester that the key's allowed_processes would reject for a get. This
    // is a deliberate scope decision: the policy controls
    // *value retrieval*, not lifecycle management of the entry.
    let clock = FakeClock::new();
    let (mut store, cap) = store_with_cap();
    let runner = CountingRunner::new(b"x");
    let pol = policies(&[("default/K", &["ssh"])]);
    let chain = [proc(100, "git")]; // would be denied for a get

    let c_set = ctx(&AllowAll, &runner, &clock, &cap);
    handle_request(&mut store, &c_set, set_static(b"hunter2"));

    let c = ctx_gated(&AllowAll, &runner, &clock, &cap, &pol, Some(&chain));
    // del succeeds (not gated): the entry is removed.
    let resp = handle_request(
        &mut store,
        &c,
        Request::KvDel {
            key: "default/K".into(),
            with_define: false,
        },
    );
    assert!(resp.is_ok(), "del is not gated by the key layer: {resp:?}");
}

// ---- kv.list / status carry backoff_until_secs ----

/// Build a store + cap with a non-zero failure-backoff window so the
/// regenerate path will actually record a `failure_backoffs` entry.
fn store_with_backoff(d: Duration) -> (Store, Cap) {
    let (mut store, cap) = store_with_cap();
    store.failure_backoff_secs = d.as_secs();
    (store, cap)
}

/// Trigger a fetch failure on `key` so the store records an active backoff
/// window. Returns once the runner has been invoked once and failed.
fn arm_backoff(store: &mut Store, c: &Ctx<'_>, key: &str) {
    // Register a definition whose runner will fail, then trigger a get so
    // get_or_regenerate runs it and records the backoff record on failure.
    let _ = handle_request(store, c, define_cmd(key, &["fail"]));
    let _ = handle_request(
        store,
        c,
        Request::KvGet {
            key: key.into(),
            dry_run: false,
        },
    );
}

#[test]
fn status_reports_backoff_until_secs_when_active() {
    let clock = FakeClock::new();
    let (mut store, cap) = store_with_backoff(Duration::from_secs(5));
    let runner = FailingRunner;
    let c = ctx(&AllowAll, &runner, &clock, &cap);
    arm_backoff(&mut store, &c, "default/K");

    let resp = handle_request(&mut store, &c, Request::Status);
    match resp {
        Response::Success(ok) => match ok.payload {
            OkPayload::Status { entries, .. } => {
                let e = entries.into_iter().find(|e| e.name == "default/K").unwrap();
                assert!(
                    e.backoff_until_secs.is_some_and(|s| s > 0),
                    "status must surface an active backoff window: {:?}",
                    e.backoff_until_secs
                );
            }
            _ => panic!("not status"),
        },
        _ => panic!("expected ok"),
    }
}

#[test]
fn list_carries_parallel_entries_with_backoff_until_secs() {
    // / minor extension: `kv.list` returns `keys` AND a
    // parallel `entries` array carrying value-free metadata so a client can
    // render backoff / pin / state hints next to each name.
    let clock = FakeClock::new();
    let (mut store, cap) = store_with_backoff(Duration::from_secs(5));
    let runner = FailingRunner;
    let c = ctx(&AllowAll, &runner, &clock, &cap);
    arm_backoff(&mut store, &c, "default/K");

    let resp = handle_request(&mut store, &c, Request::KvList);
    match resp {
        Response::Success(ok) => match ok.payload {
            OkPayload::List { keys, entries } => {
                assert_eq!(keys, vec!["default/K".to_string()]);
                assert_eq!(entries.len(), 1, "entries must be parallel to keys");
                assert_eq!(entries[0].name, "default/K");
                assert!(
                    entries[0].backoff_until_secs.is_some_and(|s| s > 0),
                    "kv.list entry must carry an active backoff: {:?}",
                    entries[0].backoff_until_secs
                );
            }
            _ => panic!("not list"),
        },
        _ => panic!("expected ok"),
    }
}

#[test]
fn list_entries_have_none_backoff_when_inactive() {
    // No backoff window has been armed: the metadata slot is None, but the
    // entries array is still parallel + same length as keys.
    let clock = FakeClock::new();
    let (mut store, cap) = store_with_cap();
    let runner = CountingRunner::new(b"x");
    let c = ctx(&AllowAll, &runner, &clock, &cap);
    handle_request(&mut store, &c, set_static(b"v"));

    let resp = handle_request(&mut store, &c, Request::KvList);
    match resp {
        Response::Success(ok) => match ok.payload {
            OkPayload::List { keys, entries } => {
                assert_eq!(keys.len(), 1);
                assert_eq!(entries.len(), 1);
                assert_eq!(entries[0].name, keys[0]);
                assert_eq!(entries[0].backoff_until_secs, None);
            }
            _ => panic!("not list"),
        },
        _ => panic!("expected ok"),
    }
}

// ---- CAS + refresh claims ----
//
// The daemon owns the *policy* here (the core only stores the version and
// the claim), so these drive `handle_request` end to end rather than
// poking the store.

fn set_req(key: &str, value: &[u8], expected: Option<u64>, token: Option<&str>) -> Request {
    Request::KvSet {
        key: key.into(),
        source: SetSource::Static {
            value_b64: encode_b64(value),
        },
        soft_ttl_secs: None,
        hard_ttl_secs: None,
        guard_constraints: Vec::new(),
        expected_version: expected,
        claim_token: token.map(str::to_string),
        persist: None,
    }
}

fn set_version(resp: &Response) -> Option<u64> {
    match resp {
        Response::Success(ok) => match &ok.payload {
            OkPayload::Stored { version, .. } => *version,
            other => panic!("expected a Set ack, got {other:?}"),
        },
        other => panic!("expected ok, got {other:?}"),
    }
}

fn claim_token_of(resp: &Response) -> String {
    match resp {
        Response::Success(ok) => match &ok.payload {
            OkPayload::Claimed { claim_token, .. } => claim_token.clone(),
            other => panic!("expected a Claimed ack, got {other:?}"),
        },
        other => panic!("expected ok, got {other:?}"),
    }
}

/// Every write advances the version, including one that asked for no
/// compare-and-swap. A write invisible to the counter would be
/// invisible to the CAS callers racing it.
#[test]
fn an_unconditional_set_still_advances_the_version() {
    let clock = FakeClock::new();
    let (mut store, cap) = store_with_cap();
    let runner = CountingRunner::new(b"x");
    let c = ctx(&AllowAll, &runner, &clock, &cap);

    let r = handle_request(&mut store, &c, set_req("default/K", b"a", None, None));
    assert_eq!(set_version(&r), Some(1));
    let r = handle_request(&mut store, &c, set_req("default/K", b"b", None, None));
    assert_eq!(set_version(&r), Some(2));
}

#[test]
fn a_create_expecting_version_zero_succeeds_then_collides() {
    let clock = FakeClock::new();
    let (mut store, cap) = store_with_cap();
    let runner = CountingRunner::new(b"x");
    let c = ctx(&AllowAll, &runner, &clock, &cap);

    let r = handle_request(&mut store, &c, set_req("default/K", b"a", Some(0), None));
    assert_eq!(set_version(&r), Some(1));

    // A second create against "must not exist" must lose.
    let r = handle_request(&mut store, &c, set_req("default/K", b"b", Some(0), None));
    assert_eq!(err_kind(&r), ErrorKind::CasMismatch);
}

/// The race the version exists for: two callers write from the same
/// read, one wins, the loser is told where to retry from.
#[test]
fn only_one_of_two_writers_from_the_same_read_wins() {
    let clock = FakeClock::new();
    let (mut store, cap) = store_with_cap();
    let runner = CountingRunner::new(b"x");
    let c = ctx(&AllowAll, &runner, &clock, &cap);
    handle_request(&mut store, &c, set_req("default/K", b"v1", None, None));

    let winner = handle_request(&mut store, &c, set_req("default/K", b"A", Some(1), None));
    let loser = handle_request(&mut store, &c, set_req("default/K", b"B", Some(1), None));

    assert_eq!(set_version(&winner), Some(2));
    match &loser {
        Response::Failure(e) => {
            assert_eq!(e.error.kind, ErrorKind::CasMismatch);
            assert_eq!(
                e.error.current_version,
                Some(2),
                "the loser must learn the version to retry from"
            );
        }
        other => panic!("expected CasMismatch, got {other:?}"),
    }
}

/// A refused compare-and-swap must not have written. Checking the
/// version rather than the value catches a partial apply too.
#[test]
fn a_refused_compare_and_swap_changes_nothing() {
    let clock = FakeClock::new();
    let (mut store, cap) = store_with_cap();
    let runner = CountingRunner::new(b"x");
    let c = ctx(&AllowAll, &runner, &clock, &cap);
    handle_request(&mut store, &c, set_req("default/K", b"v1", None, None));

    let r = handle_request(
        &mut store,
        &c,
        set_req("default/K", b"loser", Some(99), None),
    );
    assert_eq!(err_kind(&r), ErrorKind::CasMismatch);
    assert_eq!(store.version_of("default/K"), 1, "version untouched");
}

#[test]
fn claiming_reports_the_current_version_without_advancing_it() {
    let clock = FakeClock::new();
    let (mut store, cap) = store_with_cap();
    let runner = CountingRunner::new(b"x");
    let c = ctx(&AllowAll, &runner, &clock, &cap);
    handle_request(&mut store, &c, set_req("default/K", b"v", None, None));

    let r = handle_request(
        &mut store,
        &c,
        Request::KvClaim {
            key: "default/K".into(),
            expected_version: 1,
            duration_secs: 300,
        },
    );
    assert!(!claim_token_of(&r).is_empty());
    assert_eq!(
        store.version_of("default/K"),
        1,
        "a claim alters no value, so it must not advance the version"
    );
}

#[test]
fn a_second_claim_is_refused_while_the_first_holds() {
    let clock = FakeClock::new();
    let (mut store, cap) = store_with_cap();
    let runner = CountingRunner::new(b"x");
    let c = ctx(&AllowAll, &runner, &clock, &cap);
    handle_request(&mut store, &c, set_req("default/K", b"v", None, None));
    let claim = Request::KvClaim {
        key: "default/K".into(),
        expected_version: 1,
        duration_secs: 300,
    };
    handle_request(&mut store, &c, claim.clone());

    let r = handle_request(&mut store, &c, claim);
    match &r {
        Response::Failure(e) => {
            assert_eq!(e.error.kind, ErrorKind::AlreadyClaimed);
            assert!(e.error.claim_expires_in_secs.is_some());
        }
        other => panic!("expected AlreadyClaimed, got {other:?}"),
    }
}

/// A zero-second claim is born lapsed, which is how the lapsed path is
/// reached without waiting for wall-clock time.
#[test]
fn a_lapsed_claim_can_be_taken_over_and_does_not_fence_writes() {
    let clock = FakeClock::new();
    let (mut store, cap) = store_with_cap();
    let runner = CountingRunner::new(b"x");
    let c = ctx(&AllowAll, &runner, &clock, &cap);
    handle_request(&mut store, &c, set_req("default/K", b"v", None, None));
    let lapsed = Request::KvClaim {
        key: "default/K".into(),
        expected_version: 1,
        duration_secs: 0,
    };
    handle_request(&mut store, &c, lapsed);

    // Nobody holds it, so an untokened write goes through...
    let r = handle_request(&mut store, &c, set_req("default/K", b"late", Some(1), None));
    assert_eq!(set_version(&r), Some(2));
    // ...and a fresh claim can be taken.
    let r = handle_request(
        &mut store,
        &c,
        Request::KvClaim {
            key: "default/K".into(),
            expected_version: 2,
            duration_secs: 300,
        },
    );
    assert!(!claim_token_of(&r).is_empty());
}

#[test]
fn a_write_during_an_active_claim_needs_that_claims_token() {
    let clock = FakeClock::new();
    let (mut store, cap) = store_with_cap();
    let runner = CountingRunner::new(b"x");
    let c = ctx(&AllowAll, &runner, &clock, &cap);
    handle_request(&mut store, &c, set_req("default/K", b"v", None, None));
    let held = handle_request(
        &mut store,
        &c,
        Request::KvClaim {
            key: "default/K".into(),
            expected_version: 1,
            duration_secs: 300,
        },
    );
    let token = claim_token_of(&held);

    // No token at all.
    let r = handle_request(&mut store, &c, set_req("default/K", b"x", Some(1), None));
    assert_eq!(err_kind(&r), ErrorKind::ClaimTokenMismatch);
    // Someone else's token.
    let r = handle_request(
        &mut store,
        &c,
        set_req("default/K", b"x", Some(1), Some("AAAAAAAAAAAAAAAAAAAAAA")),
    );
    assert_eq!(err_kind(&r), ErrorKind::ClaimTokenMismatch);
    // The holder's token.
    let r = handle_request(
        &mut store,
        &c,
        set_req("default/K", b"fresh", Some(1), Some(&token)),
    );
    assert_eq!(set_version(&r), Some(2));
    assert!(
        store.refresh_claim_of("default/K").is_none(),
        "a completed write ends the refresh its claim was held for"
    );
}

#[test]
fn unclaiming_frees_the_key_and_rejects_a_stale_token() {
    let clock = FakeClock::new();
    let (mut store, cap) = store_with_cap();
    let runner = CountingRunner::new(b"x");
    let c = ctx(&AllowAll, &runner, &clock, &cap);
    handle_request(&mut store, &c, set_req("default/K", b"v", None, None));
    let held = handle_request(
        &mut store,
        &c,
        Request::KvClaim {
            key: "default/K".into(),
            expected_version: 1,
            duration_secs: 300,
        },
    );
    let token = claim_token_of(&held);

    let r = handle_request(
        &mut store,
        &c,
        Request::KvUnclaim {
            key: "default/K".into(),
            claim_token: "AAAAAAAAAAAAAAAAAAAAAA".into(),
        },
    );
    assert_eq!(err_kind(&r), ErrorKind::ClaimTokenMismatch);

    let r = handle_request(
        &mut store,
        &c,
        Request::KvUnclaim {
            key: "default/K".into(),
            claim_token: token.clone(),
        },
    );
    assert!(matches!(r, Response::Success(_)));
    assert!(store.refresh_claim_of("default/K").is_none());

    // Releasing again is a no-op, so a retry after a crash is not
    // punished.
    let r = handle_request(
        &mut store,
        &c,
        Request::KvUnclaim {
            key: "default/K".into(),
            claim_token: token,
        },
    );
    assert!(matches!(r, Response::Success(_)));
}

/// The expiry is what reclaims a key from a caller that died
/// mid-refresh, so a duration long enough to defeat that reclamation
/// defeats the mechanism. Zero is refused for the opposite reason: a
/// claim born lapsed grants nothing while looking like it did.
#[test]
fn an_out_of_range_claim_duration_is_refused() {
    let clock = FakeClock::new();
    let (mut store, cap) = store_with_cap();
    let runner = CountingRunner::new(b"x");
    let c = ctx(&AllowAll, &runner, &clock, &cap);
    handle_request(&mut store, &c, set_req("default/K", b"v", None, None));

    for bad in [0, MAX_CLAIM_SECS + 1, u64::MAX] {
        let r = handle_request(
            &mut store,
            &c,
            Request::KvClaim {
                key: "default/K".into(),
                expected_version: 1,
                duration_secs: bad,
            },
        );
        assert_eq!(err_kind(&r), ErrorKind::BadRequest, "duration {bad}");
        assert!(
            store.refresh_claim_of("default/K").is_none(),
            "a refused claim must not be recorded"
        );
    }

    // The boundary itself is allowed.
    let r = handle_request(
        &mut store,
        &c,
        Request::KvClaim {
            key: "default/K".into(),
            expected_version: 1,
            duration_secs: MAX_CLAIM_SECS,
        },
    );
    assert!(!claim_token_of(&r).is_empty());
}

/// A malformed token must be refused as such rather than reaching a
/// comparison it could never have won - and must never be treated as
/// a match.
#[test]
fn a_malformed_claim_token_never_passes_the_fence() {
    let clock = FakeClock::new();
    let (mut store, cap) = store_with_cap();
    let runner = CountingRunner::new(b"x");
    let c = ctx(&AllowAll, &runner, &clock, &cap);
    handle_request(&mut store, &c, set_req("default/K", b"v", None, None));
    handle_request(
        &mut store,
        &c,
        Request::KvClaim {
            key: "default/K".into(),
            expected_version: 1,
            duration_secs: 300,
        },
    );

    for bad in ["", "short", "!!!!!!!!!!!!!!!!!!!!!!", &"A".repeat(64)] {
        let r = handle_request(
            &mut store,
            &c,
            set_req("default/K", b"x", Some(1), Some(bad)),
        );
        assert_eq!(err_kind(&r), ErrorKind::ClaimTokenMismatch, "token {bad:?}");
    }
}

/// The two refusals share a wire kind but must not share a message:
/// "bring a token" and "your token is stale" call for different next
/// steps.
#[test]
fn a_missing_token_and_a_wrong_token_are_explained_differently() {
    let clock = FakeClock::new();
    let (mut store, cap) = store_with_cap();
    let runner = CountingRunner::new(b"x");
    let c = ctx(&AllowAll, &runner, &clock, &cap);
    handle_request(&mut store, &c, set_req("default/K", b"v", None, None));
    handle_request(
        &mut store,
        &c,
        Request::KvClaim {
            key: "default/K".into(),
            expected_version: 1,
            duration_secs: 300,
        },
    );

    let msg = |resp: &Response| match resp {
        Response::Failure(e) => e.error.message.clone(),
        other => panic!("expected an error, got {other:?}"),
    };
    let absent = msg(&handle_request(
        &mut store,
        &c,
        set_req("default/K", b"x", Some(1), None),
    ));
    let wrong = msg(&handle_request(
        &mut store,
        &c,
        set_req("default/K", b"x", Some(1), Some("AAAAAAAAAAAAAAAAAAAAAA")),
    ));
    assert_ne!(absent, wrong);
    assert!(absent.contains("wait"), "{absent}");
    assert!(wrong.contains("took over"), "{wrong}");
}

#[test]
fn claiming_a_key_with_no_value_is_refused() {
    let clock = FakeClock::new();
    let (mut store, cap) = store_with_cap();
    let runner = CountingRunner::new(b"x");
    let c = ctx(&AllowAll, &runner, &clock, &cap);
    let r = handle_request(
        &mut store,
        &c,
        Request::KvClaim {
            key: "default/NOPE".into(),
            expected_version: 0,
            duration_secs: 60,
        },
    );
    assert_eq!(err_kind(&r), ErrorKind::NotFound);
}

#[test]
fn claiming_from_a_stale_read_is_refused() {
    let clock = FakeClock::new();
    let (mut store, cap) = store_with_cap();
    let runner = CountingRunner::new(b"x");
    let c = ctx(&AllowAll, &runner, &clock, &cap);
    handle_request(&mut store, &c, set_req("default/K", b"a", None, None));
    handle_request(&mut store, &c, set_req("default/K", b"b", None, None));

    let r = handle_request(
        &mut store,
        &c,
        Request::KvClaim {
            key: "default/K".into(),
            expected_version: 1,
            duration_secs: 60,
        },
    );
    assert_eq!(err_kind(&r), ErrorKind::CasMismatch);
}

/// `status` reports the version and remaining claim time, and never
/// the token - anyone who can reach the socket can read this reply.
#[test]
fn status_reports_version_and_claim_but_never_the_token() {
    let clock = FakeClock::new();
    let (mut store, cap) = store_with_cap();
    let runner = CountingRunner::new(b"x");
    let c = ctx(&AllowAll, &runner, &clock, &cap);
    handle_request(&mut store, &c, set_req("default/K", b"v", None, None));
    let held = handle_request(
        &mut store,
        &c,
        Request::KvClaim {
            key: "default/K".into(),
            expected_version: 1,
            duration_secs: 300,
        },
    );
    let token = claim_token_of(&held);

    let resp = handle_request(&mut store, &c, Request::Status);
    let line = format!("{resp:?}");
    assert!(line.contains("version: Some(1)"), "{line}");
    assert!(line.contains("claim_expires_in_secs: Some(300)"), "{line}");
    assert!(
        !line.contains(&token),
        "the claim token must never appear in a status reply"
    );
}

// ---- approval of guarded reads ----

/// Store a value that only the user 501 may read.
fn seed_guarded_value(store: &mut Store, clock: &FakeClock, key: &str, value: &[u8]) {
    store.keep(key, value.to_vec(), Ttl { soft: None, hard: None }, clock.secs.get());
    let record = GuardRecord {
        constraints: vec![GuardConstraint::SameUser],
        setter: GuardSetter { euid: 501, ruid: 501 },
    };
    store.guards.insert(key.to_string(), record);
}

fn same_user_token() -> Option<GetterAuditToken> {
    Some(GetterAuditToken { euid: 501, ruid: 501 })
}

fn zsh_chain() -> Vec<GetterProcess> {
    vec![GetterProcess {
        info: ProcessInfo {
            pid: 50,
            ppid: Some(1),
            path: Some("/bin/zsh".to_string()),
            start_time: Some(1),
        },
        unique_id: None,
    }]
}

fn bind<'a>(store: &'a mut Store, c: &Ctx<'a>) -> Bound<'a> {
    Bound { store, auth: c.auth, runner: c.runner, clock: c.clock }
}

fn first_pass(store: &mut Store, c: &Ctx<'_>, key: &str) -> GuardedGetFirstPass {
    let mut bound = Bound { store, auth: c.auth, runner: c.runner, clock: c.clock };
    guarded_get_first_pass(&mut bound, &c.ctx, key)
}

fn finalize(store: &mut Store, c: &Ctx<'_>, key: &str) -> Response {
    let mut bound = Bound { store, auth: c.auth, runner: c.runner, clock: c.clock };
    guarded_get_finalize_after_approval(&mut bound, &c.ctx, key)
}

/// A host with nothing to persist, and no process to hand over to.
struct Quiet;

impl<S> Host<S> for Quiet {
    fn restart(&mut self) -> Response {
        Response::error(ErrorKind::RestartAborted, "the program's own path is unknown")
    }

    fn persist(&mut self, _store: &S) -> Result<(), String> {
        Ok(())
    }
}

/// A host that counts how often it is asked to persist.
struct Counting {
    writes: usize,
    restarts: usize,
    fail: bool,
}

impl<S> Host<S> for Counting {
    fn restart(&mut self) -> Response {
        self.restarts += 1;
        Response::pong()
    }

    fn persist(&mut self, _store: &S) -> Result<(), String> {
        self.writes += 1;
        if self.fail {
            Err("disk full".to_string())
        } else {
            Ok(())
        }
    }
}

/// A definitions file that is not there: what reading it gives, and what was
/// written to it.
struct FakeFile {
    read: Option<Result<Vec<KvDefinition>, String>>,
    written: Vec<Vec<String>>,
    refuse: Option<String>,
}

impl FakeFile {
    fn holding(read: Result<Vec<KvDefinition>, String>) -> FakeFile {
        FakeFile { read: Some(read), written: Vec::new(), refuse: None }
    }

    fn refusing(read: Option<Result<Vec<KvDefinition>, String>>, why: &str) -> FakeFile {
        FakeFile { read, written: Vec::new(), refuse: Some(why.to_string()) }
    }
}

impl DefinitionFile for FakeFile {
    fn load(&mut self) -> Result<Vec<KvDefinition>, String> {
        self.read.take().expect("the file is read at most once")
    }

    fn save(&mut self, defs: &[KvDefinition]) -> Result<(), String> {
        self.written.push(definition_names(defs));
        match &self.refuse {
            Some(why) => Err(why.clone()),
            None => Ok(()),
        }
    }
}

/// Run a request as the daemon does, with a helper that gives this answer.
fn run_with_helper(
    store: &mut Store,
    c: &Ctx<'_>,
    helper: Option<Result<DialogAnswer, String>>,
    req: Request,
) -> Response {
    let mut bound = Bound { store, auth: c.auth, runner: c.runner, clock: c.clock };
    match begin_request(&mut bound, &c.ctx, req, &mut Quiet) {
        Begun::Done(resp) => resp,
        Begun::Ask { key, .. } => {
            finish_request(&mut bound, &c.ctx, &key, &dialog_outcome(helper))
        }
    }
}

/// Run a request without a helper, with nothing to persist.
fn run_plain(store: &mut Store, c: &Ctx<'_>, req: Request) -> Response {
    let mut bound = Bound { store, auth: c.auth, runner: c.runner, clock: c.clock };
    run_request(&mut bound, &c.ctx, req, &mut Quiet)
}

fn real_get(key: &str) -> Request {
    Request::KvGet { key: key.into(), dry_run: false }
}

#[test]
fn first_pass_unguarded_returns_direct_success_response() {
    let clock = FakeClock::new();
    let (mut store, cap) = store_with_cap();
    let runner = CountingRunner::new(b"x");
    let c = ctx(&AllowAll, &runner, &clock, &cap);
    assert!(run_plain(&mut store, &c, set_static(b"v")).is_ok());
    match first_pass(&mut store, &c, "default/K") {
        GuardedGetFirstPass::Direct(resp) => assert_eq!(get_value(&resp), b"v"),
        other => panic!("expected Direct, got {other:?}"),
    }
}

/// A guarded reveal-get whose guard lets the requester through is put to the
/// user; a direct answer here would pass the user over.
#[test]
fn first_pass_guarded_matching_returns_needs_approval_not_the_value() {
    let clock = FakeClock::new();
    let (mut store, cap) = store_with_cap();
    let runner = CountingRunner::new(b"x");
    seed_guarded_value(&mut store, &clock, "default/K", b"secret");
    let chain = zsh_chain();
    let c = ctx_with_guard(
        &AllowAll, &runner, &clock, &cap, Some(&chain), same_user_token(), default_policy(),
    );
    match first_pass(&mut store, &c, "default/K") {
        GuardedGetFirstPass::NeedsApproval { passed } => {
            assert_eq!(passed.len(), 1);
            assert_eq!(passed[0], "same-user");
        }
        other => panic!("expected NeedsApproval, got {other:?}"),
    }
}

/// What the user is shown is what the guard found, and nothing was read.
#[test]
fn the_user_is_shown_the_constraints_that_passed() {
    let clock = FakeClock::new();
    let (mut store, cap) = store_with_cap();
    let runner = CountingRunner::new(b"x");
    seed_guarded_value(&mut store, &clock, "default/K", b"secret");
    let chain = zsh_chain();
    let c = ctx_with_guard(
        &AllowAll, &runner, &clock, &cap, Some(&chain), same_user_token(), default_policy(),
    );
    let mut host = Counting { writes: 0, restarts: 0, fail: false };
    let found = judge(&bind(&mut store, &c), "default/K", Some(&chain), same_user_token());
    assert_eq!((found.guarded, found.chain_known, found.denied), (true, true, None));
    assert_eq!(found.passed, names(&["same-user"]));
    let unknown = judge(&bind(&mut store, &c), "default/K", None, same_user_token());
    assert!(unknown.guarded && !unknown.chain_known && unknown.passed.is_empty());
    assert!(!judge(&bind(&mut store, &c), "default/other", Some(&chain), None).guarded);
    let begun = begin_request(&mut bind(&mut store, &c), &c.ctx, real_get("default/K"), &mut host);
    assert_eq!(
        begun,
        Begun::Ask { key: "default/K".to_string(), passed: vec!["same-user".to_string()] }
    );
    assert_eq!((host.writes, host.restarts), (0, 0));
}

#[test]
fn first_pass_guarded_denied_returns_direct_auth_failed_without_approver() {
    let clock = FakeClock::new();
    let (mut store, cap) = store_with_cap();
    let runner = CountingRunner::new(b"x");
    seed_guarded_value(&mut store, &clock, "default/K", b"secret");
    let chain = zsh_chain();
    let wrong_uid_token = Some(GetterAuditToken { euid: 999, ruid: 999 });
    let c = ctx_with_guard(
        &AllowAll, &runner, &clock, &cap, Some(&chain), wrong_uid_token, default_policy(),
    );
    match first_pass(&mut store, &c, "default/K") {
        GuardedGetFirstPass::Direct(resp) => {
            assert_eq!(err_kind(&resp), ErrorKind::AuthFailed);
            assert!(err_msg(&resp).contains("same-user"));
        }
        other => panic!("expected Direct(AuthFailed), got {other:?}"),
    }
}

#[test]
fn first_pass_guarded_without_chain_is_missing_context() {
    let clock = FakeClock::new();
    let (mut store, cap) = store_with_cap();
    let runner = CountingRunner::new(b"x");
    seed_guarded_value(&mut store, &clock, "default/K", b"secret");
    let c = ctx_with_guard(
        &AllowAll, &runner, &clock, &cap, None, same_user_token(), default_policy(),
    );
    match first_pass(&mut store, &c, "default/K") {
        GuardedGetFirstPass::Direct(resp) => {
            assert_eq!(err_kind(&resp), ErrorKind::AuthFailed);
            assert!(err_msg(&resp).contains("missing-context"));
        }
        other => panic!("expected Direct(AuthFailed missing-context), got {other:?}"),
    }
}

#[test]
fn finalize_after_approval_returns_value_when_guard_still_passes() {
    let clock = FakeClock::new();
    let (mut store, cap) = store_with_cap();
    let runner = CountingRunner::new(b"x");
    seed_guarded_value(&mut store, &clock, "default/K", b"secret");
    let chain = zsh_chain();
    let c = ctx_with_guard(
        &AllowAll, &runner, &clock, &cap, Some(&chain), same_user_token(), default_policy(),
    );
    assert_eq!(get_value(&finalize(&mut store, &c, "default/K")), b"secret");
}

#[test]
fn finalize_after_approval_passes_through_when_guard_disappeared() {
    let clock = FakeClock::new();
    let (mut store, cap) = store_with_cap();
    let runner = CountingRunner::new(b"x");
    seed_guarded_value(&mut store, &clock, "default/K", b"secret");
    // An unguarded overwrite while the user decided.
    store.guards.remove("default/K");
    // No token and no chain are needed once the guard is gone.
    let c = ctx(&AllowAll, &runner, &clock, &cap);
    assert_eq!(get_value(&finalize(&mut store, &c, "default/K")), b"secret");
}

/// A guard that changed while the user was deciding must fail closed.
#[test]
fn finalize_after_approval_fails_closed_when_guard_changed_to_a_denying_one() {
    let clock = FakeClock::new();
    let (mut store, cap) = store_with_cap();
    let runner = CountingRunner::new(b"x");
    seed_guarded_value(&mut store, &clock, "default/K", b"secret");
    let new_record = GuardRecord {
        constraints: vec![GuardConstraint::SameAncestor {
            declared: DeclaredAncestor::Named { name: "zsh".into() },
            pinned: PinnedProcess {
                pid: 99, // not in the chain
                start_time: Some(1),
                unique_id: None,
                path: "/bin/zsh".to_string(),
                name: "zsh".to_string(),
            },
        }],
        setter: GuardSetter { euid: 501, ruid: 501 },
    };
    store.guards.insert("default/K".to_string(), new_record);
    let chain = zsh_chain();
    let c = ctx_with_guard(
        &AllowAll, &runner, &clock, &cap, Some(&chain), same_user_token(), default_policy(),
    );
    let resp = finalize(&mut store, &c, "default/K");
    assert_eq!(err_kind(&resp), ErrorKind::AuthFailed);
    assert!(err_msg(&resp).contains("same-ancestor"));
    assert!(err_msg(&resp).contains("record changed"));
}

#[test]
fn finalize_after_approval_without_a_chain_fails_closed() {
    let clock = FakeClock::new();
    let (mut store, cap) = store_with_cap();
    let runner = CountingRunner::new(b"x");
    seed_guarded_value(&mut store, &clock, "default/K", b"secret");
    let c = ctx(&AllowAll, &runner, &clock, &cap);
    assert_eq!(
        err_msg(&finalize(&mut store, &c, "default/K")),
        "access denied by entry guard (kind: missing-context) after approval"
    );
}

/// Unguarded entries stay readable while the helper is unavailable.
#[test]
fn helper_down_leaves_unguarded_get_transparent() {
    let clock = FakeClock::new();
    let (mut store, cap) = store_with_cap();
    let runner = CountingRunner::new(b"x");
    let c = ctx(&AllowAll, &runner, &clock, &cap);
    assert!(run_plain(&mut store, &c, set_static(b"v")).is_ok());
    let resp = run_with_helper(&mut store, &c, None, real_get("default/K"));
    assert_eq!(get_value(&resp), b"v");
}

#[test]
fn wait_ready_returns_immediately_when_slot_is_already_ready() {
    assert_eq!(wait_ready(ApproverState::Ready, false), WaitStep::Ask);
    // Also where the wait has run out: a helper that became ready just then
    // must not be missed.
    assert_eq!(wait_ready(ApproverState::Ready, true), WaitStep::Ask);
    assert_eq!(wait_ready(ApproverState::Starting, false), WaitStep::Wait);
    assert_eq!(wait_ready(ApproverState::Starting, true), WaitStep::GiveUp);
    assert_eq!(wait_ready(ApproverState::Down, false), WaitStep::GiveUp);
}

#[test]
fn approved_outcome_returns_seeded_value_end_to_end() {
    let clock = FakeClock::new();
    let (mut store, cap) = store_with_cap();
    let runner = CountingRunner::new(b"x");
    seed_guarded_value(&mut store, &clock, "default/K", b"secret");
    let chain = zsh_chain();
    let c = ctx_with_guard(
        &AllowAll, &runner, &clock, &cap, Some(&chain), same_user_token(), default_policy(),
    );
    let resp =
        run_with_helper(&mut store, &c, Some(Ok(DialogAnswer::Approved)), real_get("default/K"));
    assert_eq!(get_value(&resp), b"secret");
}

#[test]
fn non_approved_outcomes_all_surface_as_auth_failed_with_distinct_messages() {
    let cases: &[(DialogAnswer, &str)] = &[
        (DialogAnswer::Denied, "denied"),
        (DialogAnswer::Cancelled, "cancelled"),
        (DialogAnswer::Timeout, "timed out"),
        (DialogAnswer::PeerGone, "exited before approval"),
        (DialogAnswer::BiometricFailed, "biometric authentication failed"),
    ];
    for (answer, expected_fragment) in cases {
        let clock = FakeClock::new();
        let (mut store, cap) = store_with_cap();
        let runner = CountingRunner::new(b"x");
        seed_guarded_value(&mut store, &clock, "default/K", b"secret");
        let chain = zsh_chain();
        let c = ctx_with_guard(
            &AllowAll, &runner, &clock, &cap, Some(&chain), same_user_token(), default_policy(),
        );
        let resp = run_with_helper(&mut store, &c, Some(Ok(*answer)), real_get("default/K"));
        assert_eq!(err_kind(&resp), ErrorKind::AuthFailed, "{answer:?} must map to AuthFailed");
        assert!(
            err_msg(&resp).contains(expected_fragment),
            "{answer:?} expected message to contain {expected_fragment:?}, got {:?}",
            err_msg(&resp)
        );
    }
}

#[test]
fn helper_down_fails_guarded_reveal_get_closed() {
    let clock = FakeClock::new();
    let (mut store, cap) = store_with_cap();
    let runner = CountingRunner::new(b"x");
    seed_guarded_value(&mut store, &clock, "default/K", b"secret");
    let chain = zsh_chain();
    let c = ctx_with_guard(
        &AllowAll, &runner, &clock, &cap, Some(&chain), same_user_token(), default_policy(),
    );
    let resp = run_with_helper(&mut store, &c, None, real_get("default/K"));
    assert_eq!(err_kind(&resp), ErrorKind::AuthFailed);
    assert!(err_msg(&resp).contains("approver helper unavailable"), "{}", err_msg(&resp));
    let resp =
        run_with_helper(&mut store, &c, Some(Err("broken pipe".into())), real_get("default/K"));
    assert_eq!(err_msg(&resp), "approver dialog failed: broken pipe");
}

#[test]
fn dry_run_never_takes_the_gated_path() {
    let clock = FakeClock::new();
    let (mut store, cap) = store_with_cap();
    let runner = CountingRunner::new(b"x");
    seed_guarded_value(&mut store, &clock, "default/K", b"secret");
    let c = ctx(&AllowAll, &runner, &clock, &cap);
    assert_eq!(dispatch_request(&dry_get("default/K")), Dispatch::Handle { persist: false });
    let resp = run_with_helper(&mut store, &c, None, dry_get("default/K"));
    assert!(
        !err_msg(&resp).contains("approver"),
        "dry_run must not reach the approver path: {}",
        err_msg(&resp)
    );
}

#[test]
fn reserved_and_restricted_keys_are_refused_before_the_user_is_asked() {
    let clock = FakeClock::new();
    let (mut store, cap) = store_with_cap();
    let runner = CountingRunner::new(b"x");
    seed_guarded_value(&mut store, &clock, "authsock/op_K", b"PEM");
    seed_guarded_value(&mut store, &clock, "default/K", b"secret");
    let pol = policies(&[("default/K", &["ssh"])]);
    let chain = zsh_chain();
    let requester = [proc(100, "git")];
    let mut c = ctx_with_guard(
        &AllowAll, &runner, &clock, &cap, Some(&chain), same_user_token(), default_policy(),
    );
    c.ctx.kv_process_policies = &pol;
    c.ctx.requester = Some(&requester);
    let approved = Some(Ok(DialogAnswer::Approved));
    let resp = run_with_helper(&mut store, &c, approved.clone(), real_get("authsock/op_K"));
    assert_eq!(err_kind(&resp), ErrorKind::BadRequest);
    let resp = run_with_helper(&mut store, &c, approved, real_get("default/K"));
    assert_eq!(err_msg(&resp), "process not permitted to access this key");
}

#[test]
fn every_outcome_has_its_own_label() {
    let outcomes = [
        ApprovalOutcome::Approved,
        ApprovalOutcome::HelperUnavailable,
        ApprovalOutcome::Denied,
        ApprovalOutcome::Cancelled,
        ApprovalOutcome::Timeout,
        ApprovalOutcome::PeerGone,
        ApprovalOutcome::BiometricFailed,
        ApprovalOutcome::Ipc("x".into()),
    ];
    let mut labels: Vec<&str> = outcomes.iter().map(|o| o.label()).collect();
    assert_eq!(labels[7], "approver dialog failed");
    labels.sort();
    labels.dedup();
    assert_eq!(labels.len(), 8);
}

#[test]
fn request_ids_name_the_daemon_and_count_up() {
    assert_eq!(approver_request_id(42, 0), "42-0");
    assert_eq!(approver_request_id(42, 10), "42-10");
}

#[test]
fn an_explicit_helper_is_taken_only_where_it_is_a_file() {
    let installed = Some(APPROVER_HELPER_PATH.to_string());
    assert_eq!(approver_helper_path(Some("/x".into()), true, true), Some("/x".into()));
    assert_eq!(approver_helper_path(Some("/x".into()), false, true), installed);
    assert_eq!(approver_helper_path(None, true, true), installed);
    assert_eq!(approver_helper_path(Some("/x".into()), false, false), None);
}

// ---- running requests ----

#[test]
fn run_request_set_then_get() {
    let clock = FakeClock::new();
    let (mut store, cap) = store_with_cap();
    let runner = CountingRunner::new(b"x");
    let c = ctx(&AllowAll, &runner, &clock, &cap);
    assert!(run_plain(&mut store, &c, set_static(b"v")).is_ok());
    assert_eq!(get_value(&run_plain(&mut store, &c, real_get("default/K"))), b"v");
}

#[test]
fn dispatch_malformed_line_is_bad_request() {
    let resp = malformed_reply("expected value at line 1");
    assert_eq!(err_kind(&resp), ErrorKind::BadRequest);
    assert_eq!(err_msg(&resp), "malformed request: expected value at line 1");
    assert_eq!(err_msg(&panicked_reply("x")), "handler panicked: x");
    assert_eq!(err_msg(&poisoned_reply()), "store lock poisoned");
}

#[test]
fn restart_graceful_without_a_resolvable_exe_path_is_aborted() {
    let clock = FakeClock::new();
    let (mut store, cap) = store_with_cap();
    let runner = CountingRunner::new(b"x");
    let c = ctx(&AllowAll, &runner, &clock, &cap);
    let resp = run_plain(&mut store, &c, Request::RestartGraceful);
    assert_eq!(err_kind(&resp), ErrorKind::RestartAborted);
    // The handler itself never restarts anything.
    let resp = handle_request(&mut store, &c, Request::RestartGraceful);
    assert_eq!(err_kind(&resp), ErrorKind::Internal);
}

#[test]
fn only_a_changed_registry_is_written_and_a_failed_write_is_reported() {
    let clock = FakeClock::new();
    let (mut store, cap) = store_with_cap();
    let runner = CountingRunner::new(b"x");
    let c = ctx(&AllowAll, &runner, &clock, &cap);
    let mut host = Counting { writes: 0, restarts: 0, fail: false };
    let mut run = |store: &mut Store, fail: bool, req: Request| {
        host.fail = fail;
        let resp = run_request(&mut bind(store, &c), &c.ctx, req, &mut host);
        (resp, host.writes)
    };
    let (resp, writes) = run(&mut store, false, define_cmd("default/K", &["a"]));
    assert!(resp.is_ok());
    assert_eq!(writes, 1);
    // A refused definition changes nothing.
    let (resp, writes) = run(&mut store, false, define_cmd("default/K", &["b"]));
    assert!(!resp.is_ok());
    assert_eq!(writes, 1);
    let del = |with_define| Request::KvDel { key: "default/K".into(), with_define };
    let (resp, writes) = run(&mut store, false, del(false));
    assert!(resp.is_ok());
    assert_eq!(writes, 1);
    let (resp, writes) = run(&mut store, true, del(true));
    assert_eq!(writes, 2);
    assert_eq!(err_kind(&resp), ErrorKind::Internal);
    assert_eq!(err_msg(&resp), "definition applied but could not be persisted: disk full");
    let (resp, writes) = run(&mut store, true, Request::Ping);
    assert!(resp.is_ok());
    assert_eq!(writes, 2);
    let (resp, writes) = run(&mut store, true, Request::RestartGraceful);
    assert!(resp.is_ok());
    assert_eq!(writes, 2);
    assert_eq!(host.restarts, 1);
    assert!(persist_needed(&del(true), &Response::deleted(false)));
    assert!(!persist_needed(&del(true), &Response::error(ErrorKind::Internal, "x")));
    assert!(!persist_needed(&Request::Ping, &Response::pong()));
}

// ---- a store that refuses ----

/// A store that takes a value and then refuses one of the later changes.
struct Refusing<'a> {
    inner: Bound<'a>,
    guard: bool,
    version: bool,
    claim: bool,
}

impl SecretStore for Refusing<'_> {
    type OtpParams = usize;

    fn resolve_seed(seed: &str, overrides: OtpOverrides) -> Result<(Vec<u8>, usize), String> {
        resolve_seed(seed, overrides)
    }

    fn totp(key: &[u8], now_secs: u64, digits: &usize) -> Result<String, String> {
        code_of(key, now_secs, digits)
    }

    fn encode_value(bytes: &[u8]) -> String {
        encode_b64(bytes)
    }

    fn snapshots(&self) -> Vec<EntrySnapshot> {
        self.inner.snapshots()
    }

    fn now_ns(&self) -> u64 {
        self.inner.now_ns()
    }

    fn now_epoch_ms(&self) -> u64 {
        self.inner.now_epoch_ms()
    }

    fn version_of(&self, key: &str) -> u64 {
        self.inner.version_of(key)
    }

    fn has_value(&self, key: &str) -> bool {
        self.inner.has_value(key)
    }

    fn is_defined(&self, key: &str) -> bool {
        self.inner.is_defined(key)
    }

    fn meta_of(&self, key: &str) -> Option<ValueMeta> {
        self.inner.meta_of(key)
    }

    fn active_claim(&self, key: &str) -> Option<ActiveClaim> {
        self.inner.active_claim(key)
    }

    fn parse_token(&self, token: &str) -> Ticket {
        self.inner.parse_token(token)
    }

    fn check_ttl(&self, soft: Option<u64>, hard: Option<u64>) -> Result<(), String> {
        self.inner.check_ttl(soft, hard)
    }

    fn check_source(&self, source: &SourceSpecWire) -> Result<(), String> {
        self.inner.check_source(source)
    }

    fn decode_value(&self, value_b64: &str) -> Option<Vec<u8>> {
        self.inner.decode_value(value_b64)
    }

    fn is_guarded(&self, key: &str) -> bool {
        self.inner.is_guarded(key)
    }

    fn evaluate_guard(
        &self,
        key: &str,
        chain: &[GetterProcess],
        token: Option<GetterAuditToken>,
    ) -> Result<Vec<String>, String> {
        self.inner.evaluate_guard(key, chain, token)
    }

    fn get(&mut self, _key: &str) -> Result<Option<&[u8]>, ()> {
        Err(())
    }

    fn state_of(&mut self, key: &str) -> Option<EntryState> {
        self.inner.state_of(key)
    }

    fn extend(&mut self, key: &str, requester: Option<&[ProcessInfo]>) -> ExtendOutcome {
        self.inner.extend(key, requester)
    }

    fn regenerate(&mut self, key: &str, requester: Option<&[ProcessInfo]>) -> RegenerateOutcome {
        self.inner.regenerate(key, requester)
    }

    fn generate(&mut self, key: &str, requester: Option<&[ProcessInfo]>) -> RegenerateDefOutcome {
        self.inner.generate(key, requester)
    }

    fn store_value(&mut self, plan: &SetPlan) -> StoreOutcome {
        self.inner.store_value(plan)
    }

    fn install_guard(&mut self, key: &str, record: GuardRecord) -> bool {
        self.guard && self.inner.install_guard(key, record)
    }

    fn clear_guard(&mut self, key: &str) -> bool {
        self.guard && self.inner.clear_guard(key)
    }

    fn advance_version(&mut self, key: &str) -> Option<u64> {
        if self.version {
            self.inner.advance_version(key)
        } else {
            None
        }
    }

    fn record_claim(&mut self, key: &str, grant: ClaimGrant) -> (String, bool) {
        (self.inner.record_claim(key, grant).0, self.claim)
    }

    fn clear_claim(&mut self, key: &str) -> bool {
        self.claim && self.inner.clear_claim(key)
    }

    fn delete(&mut self, key: &str, with_define: bool) -> Option<bool> {
        self.inner.delete(key, with_define)
    }

    fn define(
        &mut self,
        _key: &str,
        _source: SourceSpecWire,
        _soft: Option<u64>,
        _hard: Option<u64>,
        _meta: ValueMeta,
    ) -> DefineOutcome {
        DefineOutcome::StaticNotDefinable
    }

    fn pin(
        &mut self,
        _key: &str,
        _duration_secs: u64,
        _requester: Option<&[ProcessInfo]>,
    ) -> PinOutcome {
        PinOutcome::CapMismatch
    }

    fn unpin(&mut self, _key: &str) -> Option<bool> {
        None
    }
}

/// Handle a request against a store that refuses what is `false` here.
fn refused(
    store: &mut Store,
    c: &Ctx<'_>,
    guard: bool,
    version: bool,
    claim: bool,
    req: Request,
) -> Response {
    let inner = Bound { store, auth: c.auth, runner: c.runner, clock: c.clock };
    let mut refusing = Refusing { inner, guard, version, claim };
    cache_warden_cli::daemon::requests::handle_request(&mut refusing, &c.ctx, req)
}

#[test]
fn a_value_whose_guard_is_refused_is_taken_back() {
    let clock = FakeClock::new();
    let (mut store, cap) = store_with_cap();
    let runner = CountingRunner::new(b"x");
    let chain = zsh_chain();
    let c = ctx_with_guard(
        &AllowAll, &runner, &clock, &cap, Some(&chain), same_user_token(), default_policy(),
    );
    let guarded = || {
        let mut req = set_static(b"v");
        if let Request::KvSet { guard_constraints, .. } = &mut req {
            guard_constraints.push(GuardConstraintWire::SameUser);
        }
        req
    };
    let resp = refused(&mut store, &c, false, true, true, guarded());
    assert_eq!(err_msg(&resp), "capability mismatch (guard)");
    assert!(!store.has_value("default/K"), "an unguarded value must not stay behind");
    // A former guard that cannot be dropped leaves the value, harder to read.
    let resp = refused(&mut store, &c, false, true, true, set_static(b"v"));
    assert_eq!(err_msg(&resp), "capability mismatch (guard)");
    assert!(store.has_value("default/K"));
    let resp = refused(&mut store, &c, true, false, true, guarded());
    assert_eq!(err_msg(&resp), "capability mismatch");
    let resp = refused(&mut store, &c, true, true, false, guarded());
    assert_eq!(err_msg(&resp), "capability mismatch (claim)");
}

#[test]
fn a_store_that_refuses_is_answered_with_an_internal_error() {
    let clock = FakeClock::new();
    let (mut store, cap) = store_with_cap();
    let runner = CountingRunner::new(b"x");
    let c = ctx(&AllowAll, &runner, &clock, &cap);
    handle_request(&mut store, &c, set_static(b"v"));
    let no = |store: &mut Store, req: Request| refused(store, &c, false, false, false, req);
    let claim =
        Request::KvClaim { key: "default/K".into(), expected_version: 1, duration_secs: 60 };
    assert_eq!(err_msg(&no(&mut store, claim)), "capability mismatch (claim)");
    store.claims.clear();
    let unclaim = Request::KvUnclaim { key: "default/K".into(), claim_token: "x".into() };
    assert_eq!(err_msg(&no(&mut store, unclaim)), "capability mismatch (claim)");
    assert_eq!(err_msg(&no(&mut store, pin("default/K", 1))), "capability mismatch");
    let unpin = Request::KvUnpin { key: "default/K".into() };
    assert_eq!(err_msg(&no(&mut store, unpin)), "capability mismatch");
    // Active, but it cannot be read.
    assert_eq!(err_msg(&no(&mut store, real_get("default/K"))), "entry state changed during read");
    clock.advance(Duration::from_secs(SOFT));
    assert_eq!(err_msg(&no(&mut store, real_get("default/K"))), "value gone after extend");
    assert_eq!(
        err_msg(&no(&mut store, define_cmd("default/L", &["a"]))),
        "static sources cannot be defined; use `kv set` instead"
    );
    handle_request(&mut store, &c, define_cmd("default/L", &["a"]));
    assert_eq!(
        err_msg(&no(&mut store, real_get("default/L"))),
        "value gone after lazy generation"
    );
}

#[test]
fn a_fetch_failure_holds_off_the_next_fetch() {
    let clock = FakeClock::new();
    let (mut store, cap) = store_with_backoff(Duration::from_secs(5));
    let runner = FailingRunner;
    let c = ctx(&AllowAll, &runner, &clock, &cap);
    arm_backoff(&mut store, &c, "default/K");
    let resp = handle_request(&mut store, &c, real_get("default/K"));
    assert_eq!(err_kind(&resp), ErrorKind::UpstreamFailed);
    assert_eq!(
        err_msg(&resp),
        "backoff active after previous fetch failure; retry after 5.0s"
    );
}

// ---- start and stop ----

fn pdef(name: &str, argv: &[&str], soft: Option<u64>, hard: Option<u64>) -> KvDefinition {
    KvDefinition {
        name: name.into(),
        namespace: None,
        source: cmd_spec(argv),
        soft_ttl_secs: soft,
        hard_ttl_secs: hard,
        preload: false,
        meta: no_meta(),
    }
}

fn preloaded(name: &str, argv: &[&str]) -> KvDefinition {
    KvDefinition { preload: true, ..pdef(name, argv, None, None) }
}

/// Register the definitions of a configuration. Hands back the warnings.
fn register_definitions(
    store: &mut Store,
    c: &Ctx<'_>,
    entries: &[KvDefinition],
    force_eager: &[String],
    already_loaded: &[String],
) -> Vec<String> {
    let mut bound = Bound { store, auth: c.auth, runner: c.runner, clock: c.clock };
    startup::register_definitions(&mut bound, entries, force_eager, already_loaded)
}

/// Register persisted definitions. Hands back the warnings.
fn restore_persisted_definitions(
    store: &mut Store,
    c: &Ctx<'_>,
    persisted: &[KvDefinition],
    config_names: &[String],
) -> Vec<String> {
    let mut bound = Bound { store, auth: c.auth, runner: c.runner, clock: c.clock };
    startup::restore_persisted_definitions(&mut bound, persisted, config_names)
}

fn value_of<'a>(store: &'a Store, key: &str) -> Option<&'a [u8]> {
    store.entries.get(key).map(|e| e.value.as_slice())
}

fn argv_in(store: &Store, key: &str) -> Vec<String> {
    argv_of(&store.definitions[key].source)
}

fn names(keys: &[&str]) -> Vec<String> {
    keys.iter().map(|k| k.to_string()).collect()
}

#[test]
fn definition_without_preload_is_lazy_no_value_yet() {
    let clock = FakeClock::new();
    let (mut store, cap) = store_with_cap();
    let c = ctx(&AllowAll, &PrintRunner, &clock, &cap);
    let entries = [pdef("TOK", &["printf", "tok-value"], Some(3600), Some(86400))];
    register_definitions(&mut store, &c, &entries, &[], &[]);
    assert!(store.is_defined("default/TOK"), "definition registered");
    assert!(!store.has_value("default/TOK"), "value not produced eagerly (lazy)");
}

#[test]
fn definition_with_preload_runs_eagerly() {
    let clock = FakeClock::new();
    let (mut store, cap) = store_with_cap();
    let c = ctx(&AllowAll, &PrintRunner, &clock, &cap);
    let mut entry = pdef("TOK", &["printf", "tok-value"], Some(3600), Some(86400));
    entry.preload = true;
    register_definitions(&mut store, &c, &[entry], &[], &[]);
    assert_eq!(value_of(&store, "default/TOK"), Some(&b"tok-value"[..]));
}

#[test]
fn authsock_referenced_key_is_eager_even_without_preload() {
    let clock = FakeClock::new();
    let (mut store, cap) = store_with_cap();
    let c = ctx(&AllowAll, &PrintRunner, &clock, &cap);
    let entries = [
        pdef("AGENT_KEY", &["printf", "pem-bytes"], None, None),
        pdef("OTHER", &["printf", "other"], None, None),
    ];
    register_definitions(&mut store, &c, &entries, &names(&["default/AGENT_KEY"]), &[]);
    assert_eq!(value_of(&store, "default/AGENT_KEY"), Some(&b"pem-bytes"[..]));
    // The unreferenced key stays lazy.
    assert!(store.is_defined("default/OTHER"));
    assert!(!store.has_value("default/OTHER"), "unreferenced key stays lazy");
}

#[test]
fn preload_failure_is_non_fatal_and_keeps_definition() {
    let clock = FakeClock::new();
    let (mut store, cap) = store_with_cap();
    let c = ctx(&AllowAll, &PrintRunner, &clock, &cap);
    let entries = [
        preloaded("BAD", &["this-binary-does-not-exist-cw-preload"]),
        preloaded("GOOD", &["printf", "ok"]),
    ];
    let warnings = register_definitions(&mut store, &c, &entries, &[], &[]);
    assert!(store.is_defined("default/BAD"), "definition kept after failed preload");
    assert_eq!(value_of(&store, "default/BAD"), None, "no value after failed preload");
    assert_eq!(value_of(&store, "default/GOOD"), Some(&b"ok"[..]));
    assert_eq!(
        warnings,
        vec![
            "cache-warden: preload `default/BAD` failed: cannot run this-binary-does-not-exist-cw-preload"
                .to_string()
        ]
    );
}

#[test]
fn authsock_forced_eager_failure_is_non_fatal_and_keeps_definition() {
    let clock = FakeClock::new();
    let (mut store, cap) = store_with_cap();
    let c = ctx(&AllowAll, &PrintRunner, &clock, &cap);
    let entries = [pdef("AGENT_KEY", &["this-binary-does-not-exist-cw-preload"], None, None)];
    register_definitions(&mut store, &c, &entries, &names(&["default/AGENT_KEY"]), &[]);
    assert!(store.is_defined("default/AGENT_KEY"), "definition survives");
    assert!(!store.has_value("default/AGENT_KEY"), "no value after failed run");
}

#[test]
fn already_loaded_key_skips_eager_rerun_even_when_preload_is_true() {
    let clock = FakeClock::new();
    let (mut store, cap) = store_with_cap();
    let c = ctx(&AllowAll, &PrintRunner, &clock, &cap);
    let never = Ttl { soft: None, hard: None };
    store.keep("default/TOK", b"imported-value".to_vec(), never, clock.secs.get());
    let entries = [preloaded("TOK", &["printf", "re-fetched-value"])];
    register_definitions(&mut store, &c, &entries, &[], &names(&["default/TOK"]));
    assert_eq!(value_of(&store, "default/TOK"), Some(&b"imported-value"[..]));
}

#[test]
fn already_loaded_key_skips_eager_rerun_for_force_eager_too() {
    let clock = FakeClock::new();
    let (mut store, cap) = store_with_cap();
    let c = ctx(&AllowAll, &PrintRunner, &clock, &cap);
    let never = Ttl { soft: None, hard: None };
    store.keep("default/AGENT_KEY", b"imported-pem".to_vec(), never, clock.secs.get());
    let entries = [pdef("AGENT_KEY", &["printf", "re-fetched-pem"], None, None)];
    let eager = names(&["default/AGENT_KEY"]);
    register_definitions(&mut store, &c, &entries, &eager, &eager);
    assert_eq!(value_of(&store, "default/AGENT_KEY"), Some(&b"imported-pem"[..]));
}

#[test]
fn a_definition_that_cannot_stand_is_skipped_with_a_warning() {
    let clock = FakeClock::new();
    let (mut store, cap) = store_with_cap();
    let c = ctx(&AllowAll, &PrintRunner, &clock, &cap);
    let entries = [
        pdef("BAD", &["a"], Some(100), Some(10)),
        pdef("K", &["a"], None, None),
        pdef("K", &["b"], None, None),
    ];
    let warnings = register_definitions(&mut store, &c, &entries, &[], &[]);
    assert_eq!(
        warnings,
        names(&[
            "cache-warden: definition `default/BAD` skipped: soft TTL exceeds hard TTL",
            "cache-warden: definition `default/K` conflicts with an existing definition; skipped",
        ])
    );
    assert_eq!(argv_in(&store, "default/K"), names(&["a"]));
    assert_eq!(
        definition_registered("n/K", DefineOutcome::StaticNotDefinable, true),
        RegisterStep::Skip {
            warning: "cache-warden: definition `n/K` skipped: static source".to_string()
        }
    );
    assert_eq!(
        definition_registered("n/K", DefineOutcome::InvalidKey("bad key".into()), true),
        RegisterStep::Skip {
            warning: "cache-warden: definition `n/K` skipped: bad key".to_string()
        }
    );
}

#[test]
fn restore_registers_keys_not_in_config() {
    let clock = FakeClock::new();
    let (mut store, cap) = store_with_cap();
    let c = ctx(&AllowAll, &PrintRunner, &clock, &cap);
    let persisted = [pdef("TOK", &["printf", "v"], Some(3600), Some(86400))];
    restore_persisted_definitions(&mut store, &c, &persisted, &[]);
    assert!(store.is_defined("default/TOK"), "persisted def restored");
    assert_eq!(argv_in(&store, "default/TOK"), names(&["printf", "v"]));
    assert_eq!(store.definitions["default/TOK"].soft, Some(3600));
}

#[test]
fn restore_drops_persisted_key_that_config_already_defines() {
    let clock = FakeClock::new();
    let (mut store, cap) = store_with_cap();
    let c = ctx(&AllowAll, &PrintRunner, &clock, &cap);
    let config = [pdef("DB", &["config-cmd"], None, None)];
    register_definitions(&mut store, &c, &config, &[], &[]);
    // Persisted DB has a DIFFERENT argv; it must be dropped, not applied.
    let persisted = [pdef("DB", &["persisted-cmd"], None, None)];
    let warnings =
        restore_persisted_definitions(&mut store, &c, &persisted, &definition_names(&config));
    assert_eq!(argv_in(&store, "default/DB"), names(&["config-cmd"]));
    assert_eq!(
        warnings,
        names(&[
            "cache-warden: persisted definition `default/DB` dropped (the config defines it; config wins)"
        ])
    );
}

#[test]
fn clear_config_owned_definitions_lets_a_changed_config_definition_win_over_import() {
    let clock = FakeClock::new();
    let (mut store, cap) = store_with_cap();
    let c = ctx(&AllowAll, &PrintRunner, &clock, &cap);
    // What a handoff leaves behind: the old definition and its value.
    let old = [pdef("OLD", &["old-cmd"], None, Some(3600))];
    register_definitions(&mut store, &c, &old, &[], &[]);
    let hour = Ttl { soft: None, hard: Some(3600) };
    store.keep("default/OLD", b"cached-value".to_vec(), hour, clock.secs.get());

    let config = [pdef("OLD", &["new-cmd"], None, Some(10))];
    startup::clear_config_owned_definitions(&mut bind(&mut store, &c), &definition_names(&config));
    assert!(!store.is_defined("default/OLD"));
    assert_eq!(value_of(&store, "default/OLD"), Some(&b"cached-value"[..]));

    assert!(register_definitions(&mut store, &c, &config, &[], &[]).is_empty());
    assert_eq!(argv_in(&store, "default/OLD"), names(&["new-cmd"]));
    assert_eq!(value_of(&store, "default/OLD"), Some(&b"cached-value"[..]));
}

#[test]
fn purge_stale_import_definitions_removes_orphaned_config_removed_key_but_keeps_persisted_online_one()
{
    let clock = FakeClock::new();
    let (mut store, cap) = store_with_cap();
    let c = ctx(&AllowAll, &PrintRunner, &clock, &cap);
    // What a handoff leaves behind: a definition that the configuration used to
    // make, and one that was made online.
    let imported = [
        pdef("REMOVED_FROM_CONFIG", &["stale-cmd"], None, None),
        pdef("STILL_ONLINE", &["online-cmd"], None, None),
    ];
    register_definitions(&mut store, &c, &imported, &[], &[]);
    let persisted_names = names(&["default/STILL_ONLINE"]);
    let mut bound = bind(&mut store, &c);
    let stale = startup::purge_stale_import_definitions(&mut bound, &[], &persisted_names);
    assert_eq!(
        stale,
        names(&["default/REMOVED_FROM_CONFIG"]),
        "only the orphaned (config-removed, never-persisted) key must be purged"
    );
    assert!(!store.is_defined("default/REMOVED_FROM_CONFIG"));
    assert!(store.is_defined("default/STILL_ONLINE"));
}

#[test]
fn purge_stale_import_definitions_keeps_current_config_keys() {
    let clock = FakeClock::new();
    let (mut store, cap) = store_with_cap();
    let c = ctx(&AllowAll, &PrintRunner, &clock, &cap);
    register_definitions(
        &mut store, &c, &[pdef("STILL_CONFIGURED", &["cmd"], None, None)], &[], &[],
    );
    let config_names = names(&["default/STILL_CONFIGURED"]);
    let mut bound = bind(&mut store, &c);
    let stale = startup::purge_stale_import_definitions(&mut bound, &config_names, &[]);
    assert!(stale.is_empty(), "a current config key must never be purged");
    assert!(store.is_defined("default/STILL_CONFIGURED"));
}

#[test]
fn restore_skips_bad_ttl_without_aborting_others() {
    let clock = FakeClock::new();
    let (mut store, cap) = store_with_cap();
    let c = ctx(&AllowAll, &PrintRunner, &clock, &cap);
    // First entry has soft > hard; it must be skipped while the second still
    // registers.
    let persisted =
        [pdef("BAD", &["echo"], Some(100), Some(10)), pdef("GOOD", &["echo"], None, None)];
    let warnings = restore_persisted_definitions(&mut store, &c, &persisted, &[]);
    assert!(!store.is_defined("default/BAD"), "invalid TTL entry skipped");
    assert!(store.is_defined("default/GOOD"), "subsequent entry still restored");
    assert_eq!(
        warnings,
        names(&[
            "cache-warden: persisted definition `default/BAD` skipped: soft TTL exceeds hard TTL"
        ])
    );
}

#[test]
fn only_definitions_that_the_config_does_not_make_go_to_disk() {
    let snapshot = [pdef("A", &["a"], None, None), pdef("B", &["b"], None, None)];
    let online = online_definitions(&snapshot, &names(&["default/A"]));
    assert_eq!(online, vec![pdef("B", &["b"], None, None)]);
    assert!(online_definitions(&snapshot, &names(&["default/A", "default/B"])).is_empty());
}

#[test]
fn a_start_puts_config_and_persisted_definitions_together() {
    let clock = FakeClock::new();
    let (mut store, cap) = store_with_cap();
    let c = ctx(&AllowAll, &PrintRunner, &clock, &cap);
    // A handoff brought an old definition of a configured key, with its value,
    // and one that nobody asks for any more.
    let imported = [pdef("DB", &["old"], None, None), pdef("ORPHAN", &["x"], None, None)];
    register_definitions(&mut store, &c, &imported, &[], &[]);
    store.keep("default/DB", b"kept".to_vec(), Ttl { soft: None, hard: None }, 0);

    let config = [preloaded("DB", &["printf", "new"]), pdef("AGENT", &["printf", "pem"], None, None)];
    let mut file = FakeFile::holding(Ok(vec![
        pdef("DB", &["stale"], None, None),
        pdef("ONLINE", &["echo"], None, None),
    ]));
    let warnings = startup::start_definitions(
        &mut bind(&mut store, &c),
        &config,
        &names(&["default/AGENT"]),
        Some("/state/definitions.toml"),
        &mut file,
    );
    assert_eq!(
        warnings,
        names(&[
            "cache-warden: persisted definition `default/DB` dropped (the config defines it; config wins)"
        ])
    );
    assert_eq!(argv_in(&store, "default/DB"), names(&["printf", "new"]));
    assert_eq!(value_of(&store, "default/DB"), Some(&b"kept"[..]), "not fetched again");
    assert_eq!(value_of(&store, "default/AGENT"), Some(&b"pem"[..]));
    assert!(!store.is_defined("default/ORPHAN"));
    assert_eq!(file.written, vec![names(&["default/ONLINE"])]);
}

#[test]
fn a_start_goes_on_without_a_readable_or_writable_file() {
    let clock = FakeClock::new();
    let (mut store, cap) = store_with_cap();
    let c = ctx(&AllowAll, &PrintRunner, &clock, &cap);
    let unreadable = Err("invalid persisted definitions /state/d.toml: x".to_string());
    let mut file = FakeFile::refusing(Some(unreadable), "disk full");
    let warnings = startup::start_definitions(
        &mut bind(&mut store, &c),
        &[pdef("K", &["a"], None, None)],
        &[],
        Some("/state/d.toml"),
        &mut file,
    );
    assert_eq!(
        warnings,
        names(&[
            "cache-warden: invalid persisted definitions /state/d.toml: x; ignoring persisted definitions",
            "cache-warden: warning: could not write persisted definitions /state/d.toml: disk full",
        ])
    );
    assert!(store.is_defined("default/K"));
}

#[test]
fn definitions_are_written_only_where_they_are_persisted() {
    let clock = FakeClock::new();
    let (mut store, cap) = store_with_cap();
    let c = ctx(&AllowAll, &PrintRunner, &clock, &cap);
    let mut file = FakeFile::refusing(None, "nothing is persisted");
    let warnings = startup::start_definitions(
        &mut bind(&mut store, &c),
        &[pdef("K", &["a"], None, None)],
        &[],
        None,
        &mut file,
    );
    assert!(warnings.is_empty());
    assert!(file.written.is_empty());
    let write = |store: &mut Store, config_names: Option<&[String]>| {
        let mut file = FakeFile::refusing(None, "disk full");
        let result = startup::persist_if_enabled(&bind(store, &c), config_names, &mut file);
        (result, file.written)
    };
    let full = Err("disk full".to_string());
    let (mut other, _) = store_with_cap();
    assert_eq!(write(&mut other, None), (Ok(()), vec![]));
    assert_eq!(write(&mut other, Some(&[])), (full.clone(), vec![names(&[])]));
    assert_eq!(write(&mut store, Some(&[])), (full.clone(), vec![names(&["default/K"])]));
    assert_eq!(write(&mut store, Some(&names(&["default/K"]))), (full, vec![names(&[])]));
    let mut denied = FakeFile::refusing(None, "denied");
    assert_eq!(
        startup::write_online_definitions(&bind(&mut store, &c), &[], "/p", &mut denied),
        Some("cache-warden: warning: could not write persisted definitions /p: denied".to_string())
    );
}

#[test]
fn bind_detects_double_start() {
    assert_eq!(
        bind_step("/tmp/control.sock", true, true),
        BindStep::Refuse {
            message: "another cache-warden daemon is already listening on /tmp/control.sock"
                .to_string()
        }
    );
}

#[test]
fn bind_removes_stale_socket() {
    assert_eq!(bind_step("/tmp/control.sock", true, false), BindStep::RemoveStale);
    assert_eq!(bind_step("/tmp/control.sock", false, false), BindStep::Bind);
}

#[test]
fn a_weakened_process_is_never_silent_about_it() {
    assert!(hardening_warnings(true, false, true).is_empty());
    assert_eq!(hardening_warnings(false, false, false).len(), 2);
    let warnings = hardening_warnings(true, true, true);
    assert_eq!(warnings.len(), 1);
    assert!(warnings[0].contains("allow-debug-attach"));
}

#[test]
fn a_start_ends_in_one_of_three_ways() {
    assert_eq!(startup_result(StartupEvent::Finished), Ok(()));
    assert_eq!(
        startup_result(StartupEvent::Panicked("x".into())),
        Err(ServerError::Io("startup task panicked: x".into()))
    );
    let stopped = startup_result(StartupEvent::StopSignal).unwrap_err();
    assert_eq!(stopped.message(), "shutdown signal received during startup");
    assert_eq!(ServerError::Io("x".into()).message(), "x");
}

#[test]
fn only_a_takeover_looks_back_and_only_a_restart_waits() {
    assert_eq!(clock_headroom_secs(true), 86400);
    assert_eq!(clock_headroom_secs(false), 0);
    assert_eq!(drain_deadline_secs(true), Some(5));
    assert_eq!(drain_deadline_secs(false), None);
    let mut count = ConnectionCount::new();
    assert!(count.drained());
    count.inc();
    count.inc();
    assert!(!count.dec());
    assert!(!count.drained());
    assert!(count.dec());
    assert!(count.drained());
}

#[test]
fn blank_lines_are_passed_over() {
    assert!(is_blank_line(" \t"));
    assert!(is_blank_line(""));
    assert!(!is_blank_line(" {} "));
    assert!(ENCODE_FAILURE.contains("failed to encode response"));
}

#[test]
fn definitions_are_registered_with_their_whole_source() {
    let clock = FakeClock::new();
    let (mut store, cap) = store_with_cap();
    let c = ctx(&AllowAll, &PrintRunner, &clock, &cap);
    let typed = SourceSpecWire::Command {
        command: CommandSpecWire {
            argv: vec!["printf".into(), "x".into()],
            cwd: Some("/src".into()),
            env: vec![("A".into(), "b".into())],
        },
    };
    let op = op_spec("op://v/i/f", Some("me"));
    let config = [KvDefinition { source: typed.clone(), ..pdef("A", &[], None, None) }];
    register_definitions(&mut store, &c, &config, &[], &[]);
    assert_eq!(store.definitions["default/A"].source, typed);
    let persisted = [KvDefinition { source: op.clone(), ..pdef("B", &[], None, None) }];
    restore_persisted_definitions(&mut store, &c, &persisted, &[]);
    assert_eq!(store.definitions["default/B"].source, op);
}

#[test]
fn an_otp_key_gives_the_code_of_its_seed() {
    let clock = FakeClock::new();
    let (mut store, cap) = store_with_cap();
    let c = ctx(&AllowAll, &PrintRunner, &clock, &cap);
    let define = define_otp_seed("default/OTP", OTP_SEED_B32, &[("digits", "8")]);
    assert!(handle_request(&mut store, &c, define).is_ok());
    let get = |dry_run| Request::KvGet { key: "default/OTP".into(), dry_run };
    let seed = base32(OTP_SEED_B32).unwrap();
    let code = code_of(&seed, clock.secs.get(), &8).unwrap();
    let resp = handle_request(&mut store, &c, get(false));
    assert_eq!(get_value(&resp), code.as_bytes());
    assert_eq!(
        handle_request(&mut store, &c, get(true)),
        Response::get_verified("active")
    );
}

#[test]
fn a_dry_run_and_a_reveal_go_the_same_way() {
    let otp = |seed: &str| define_otp_seed("default/K", seed, &[]);
    let cases: Vec<(Option<Request>, bool)> = vec![
        (None, true),
        (Some(define_cmd("default/K", &["printf", "v"])), true),
        (Some(define_cmd("default/K", &["printf", "v"])), false),
        (Some(define_cmd("default/K", &["no-such-binary-cw-dry-run"])), true),
        (Some(otp(OTP_SEED_B32)), true),
        (Some(otp("!!!")), true),
    ];
    let mut failures = 0;
    for (define, allowed) in cases {
        let ask = |dry_run| {
            let clock = FakeClock::new();
            let (mut store, cap) = store_with_cap();
            let auth: &dyn Auth = if allowed { &AllowAll } else { &DenyAll };
            let c = ctx(auth, &PrintRunner, &clock, &cap);
            if let Some(req) = define.clone() {
                assert!(handle_request(&mut store, &c, req).is_ok());
            }
            let req = Request::KvGet { key: "default/K".into(), dry_run };
            let resp = handle_request(&mut store, &c, req);
            (resp, store.has_value("default/K"), store.backoffs.contains_key("default/K"))
        };
        let (revealed, kept, backed_off) = ask(false);
        let (verified, dry_kept, dry_backed_off) = ask(true);
        assert_eq!((kept, backed_off), (dry_kept, dry_backed_off), "the same renewals");
        if revealed.is_ok() {
            get_value(&revealed);
            assert_eq!(verified, Response::get_verified("active"));
        } else {
            failures += 1;
            assert_eq!(verified, revealed, "the same failure");
        }
    }
    assert_eq!(failures, 4);
}
