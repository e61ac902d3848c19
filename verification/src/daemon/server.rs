//! The daemon's start and stop: which definitions it registers and runs, which
//! it keeps on disk, and what it reports on the way.

use vstd::prelude::*;

use crate::config::{DefView, KvDefinition};
use crate::daemon::handler::DefineOutcome;
use crate::defs;
use crate::namespace;
use crate::text;

verus! {

/// How much of its past a daemon that takes over from another one can tell the
/// age of, in seconds.
pub const GRACEFUL_RESTART_CLOCK_HEADROOM_SECS: u64 = 86400;

/// How long a graceful restart waits for open connections, in seconds.
pub const RESTART_DRAIN_DEADLINE_SECS: u64 = 5;

/// How long a stop may take before it is forced, in seconds.
pub const SHUTDOWN_GRACE_SECS: u64 = 5;

/// What is sent where a response cannot be encoded.
pub const ENCODE_FAILURE: &'static str =
    "{\"ok\":false,\"error\":{\"kind\":\"internal\",\"message\":\"failed to encode response\"}}";

/// Why the daemon ended.
#[derive(Debug, Clone, PartialEq, Eq)]
pub enum ServerError {
    /// A stop signal came before the start was complete.
    ShutdownDuringStartup,
    /// What the system reported.
    Io(String),
}

impl ServerError {
    pub fn message(&self) -> (r: String)
        ensures
            r@ == match *self {
                ServerError::ShutdownDuringStartup => "shutdown signal received during startup"@,
                ServerError::Io(e) => e@,
            },
    {
        match self {
            ServerError::ShutdownDuringStartup => "shutdown signal received during startup".to_owned(),
            ServerError::Io(e) => e.clone(),
        }
    }
}

/// How the start went on until it ended.
#[derive(Debug, Clone, PartialEq, Eq)]
pub enum StartupEvent {
    Finished,
    Panicked(String),
    StopSignal,
}

/// What a start leads to.
pub fn startup_result(event: StartupEvent) -> (r: Result<(), ServerError>)
    ensures
        match event {
            StartupEvent::Finished => r is Ok,
            StartupEvent::Panicked(e) => r matches Err(ServerError::Io(m)) && m@
                == "startup task panicked: "@ + e@,
            StartupEvent::StopSignal => r == Err::<(), ServerError>(
                ServerError::ShutdownDuringStartup,
            ),
        },
{
    match event {
        StartupEvent::Finished => Ok(()),
        StartupEvent::Panicked(e) => Err(
            ServerError::Io("startup task panicked: ".to_owned().concat(e.as_str())),
        ),
        StartupEvent::StopSignal => Err(ServerError::ShutdownDuringStartup),
    }
}

/// What is done about the path of a control socket.
#[derive(Debug, Clone, PartialEq, Eq)]
pub enum BindStep {
    Bind,
    /// Remove what a dead daemon left, then bind.
    RemoveStale,
    Refuse { message: String },
}

/// What is done about the path of a control socket: `present` says that a file
/// is there, `live` that somebody answers on it.
pub fn bind_step(path: &str, present: bool, live: bool) -> (r: BindStep)
    ensures
        if !present {
            r is Bind
        } else if live {
            r matches BindStep::Refuse { message } && message@
                == "another cache-warden daemon is already listening on "@ + path@
        } else {
            r is RemoveStale
        },
{
    if !present {
        BindStep::Bind
    } else if live {
        BindStep::Refuse {
            message: "another cache-warden daemon is already listening on ".to_owned().concat(path),
        }
    } else {
        BindStep::RemoveStale
    }
}

/// What is warned of when the process could not be, or was not to be, hardened.
pub open spec fn hardening_notes(
    core_dumps_off: bool,
    allow_debug_attach: bool,
    attach_refused: bool,
) -> Seq<Seq<char>> {
    (if core_dumps_off {
        Seq::empty()
    } else {
        seq![
            "cache-warden: warning: could not disable core dumps (RLIMIT_CORE); a crash could leak in-memory secrets to a core file"@,
        ]
    }) + (if allow_debug_attach {
        seq![
            "cache-warden: warning: anti-debug hardening disabled ([daemon].allow-debug-attach = true); a debugger can attach and read in-memory secrets"@,
        ]
    } else if attach_refused {
        Seq::empty()
    } else {
        seq![
            "cache-warden: warning: could not refuse debugger attachment; a debugger could attach and read in-memory secrets"@,
        ]
    })
}

/// The warnings about the process's hardening. A weakened process is never
/// silent about it.
pub fn hardening_warnings(
    core_dumps_off: bool,
    allow_debug_attach: bool,
    attach_refused: bool,
) -> (r: Vec<String>)
    ensures
        r.deep_view() == hardening_notes(core_dumps_off, allow_debug_attach, attach_refused),
{
    let mut out: Vec<String> = Vec::new();
    if !core_dumps_off {
        text::push_text(
            &mut out,
            "cache-warden: warning: could not disable core dumps (RLIMIT_CORE); a crash could leak in-memory secrets to a core file".to_owned(),
        );
    }
    if allow_debug_attach {
        text::push_text(
            &mut out,
            "cache-warden: warning: anti-debug hardening disabled ([daemon].allow-debug-attach = true); a debugger can attach and read in-memory secrets".to_owned(),
        );
    } else if !attach_refused {
        text::push_text(
            &mut out,
            "cache-warden: warning: could not refuse debugger attachment; a debugger could attach and read in-memory secrets".to_owned(),
        );
    }
    assert(out.deep_view() =~= hardening_notes(core_dumps_off, allow_debug_attach, attach_refused));
    out
}

/// How far back the clock reaches: only a daemon that takes over entries from
/// another one needs a past.
pub fn clock_headroom_secs(takes_over: bool) -> (r: u64)
    ensures
        r == if takes_over {
            86400u64
        } else {
            0u64
        },
{
    if takes_over {
        GRACEFUL_RESTART_CLOCK_HEADROOM_SECS
    } else {
        0
    }
}

/// How long the daemon waits for open connections before it ends: only a
/// graceful restart waits.
pub fn drain_deadline_secs(restart_requested: bool) -> (r: Option<u64>)
    ensures
        r == if restart_requested {
            Some(5u64)
        } else {
            None
        },
{
    if restart_requested {
        Some(RESTART_DRAIN_DEADLINE_SECS)
    } else {
        None
    }
}

/// Whether a line of a connection is passed over without a reply.
pub fn is_blank_line(line: &str) -> (r: bool)
    ensures
        r == (text::trimmed(line@).len() == 0),
{
    text::trim(line).is_empty()
}

/// The composed keys of the definitions, read in the default namespace.
pub open spec fn definition_keys(defs: Seq<DefView>) -> Seq<Seq<char>> {
    defs.map_values(|d: DefView| defs::file_key(d))
}

/// The composed keys of the definitions, read in the default namespace.
pub fn definition_names(defs: &[KvDefinition]) -> (r: Vec<String>)
    ensures
        r.deep_view() == definition_keys(defs.deep_view()),
{
    let ghost keys = definition_keys(defs.deep_view());
    let mut out: Vec<String> = Vec::new();
    let mut i: usize = 0;
    while i < defs.len()
        invariant
            i <= defs.len(),
            keys == definition_keys(defs.deep_view()),
            out.deep_view() == keys.take(i as int),
        decreases defs.len() - i,
    {
        text::push_text(&mut out, defs[i].full_key(namespace::DEFAULT_NAMESPACE));
        assert(out.deep_view() =~= keys.take(i + 1));
        i += 1;
    }
    assert(keys.take(i as int) =~= keys);
    out
}

/// What is said of a definition that is passed over.
pub open spec fn skipped_note(key: Seq<char>, why: Seq<char>) -> Seq<char> {
    "cache-warden: definition `"@ + key + "` skipped: "@ + why
}

fn skipped_text(key: &str, why: &str) -> (r: String)
    ensures
        r@ == skipped_note(key@, why@),
{
    "cache-warden: definition `".to_owned().concat(key).concat("` skipped: ").concat(why)
}

/// What the start does with one definition.
#[derive(Debug, Clone, PartialEq, Eq)]
pub enum RegisterStep {
    /// Pass it over with this warning.
    Skip { warning: String },
    /// Register it under this key.
    Define { key: String },
    /// It is registered; run its command now and store the value.
    Run,
    /// It is registered; the value comes with the first get.
    Done,
}

/// The first step for a definition of the configuration; `ttl` says whether its
/// times to live go together.
pub fn register_definition(entry: &KvDefinition, ttl: Result<(), String>) -> (r: RegisterStep)
    ensures
        match ttl {
            Ok(()) => r matches RegisterStep::Define { key } && key@ == defs::file_key(entry@),
            Err(e) => r matches RegisterStep::Skip { warning } && warning@ == skipped_note(
                defs::file_key(entry@),
                e@,
            ),
        },
{
    let key = entry.full_key(namespace::DEFAULT_NAMESPACE);
    match ttl {
        Ok(()) => RegisterStep::Define { key },
        Err(e) => RegisterStep::Skip { warning: skipped_text(key.as_str(), e.as_str()) },
    }
}

/// Whether the start runs a definition's command: where the entry or an agent
/// socket asks for it, and the key does not hold a value already.
pub open spec fn eager(
    preload: bool,
    key: Seq<char>,
    force_eager: Seq<Seq<char>>,
    already_loaded: Seq<Seq<char>>,
) -> bool {
    (preload || force_eager.contains(key)) && !already_loaded.contains(key)
}

/// Whether the start runs the command of the definition of `key`.
pub fn runs_eagerly(
    preload: bool,
    key: &str,
    force_eager: &[String],
    already_loaded: &[String],
) -> (r: bool)
    ensures
        r == eager(preload, key@, force_eager.deep_view(), already_loaded.deep_view()),
{
    (preload || text::list_has(force_eager, key)) && !text::list_has(already_loaded, key)
}

/// A key that arrived with its value is never fetched again at the start,
/// whatever asks for it.
pub proof fn loaded_keys_are_not_fetched_again(
    preload: bool,
    key: Seq<char>,
    force_eager: Seq<Seq<char>>,
    already_loaded: Seq<Seq<char>>,
)
    requires
        already_loaded.contains(key),
    ensures
        !eager(preload, key, force_eager, already_loaded),
{
}

/// The step after a definition of the configuration was to be registered.
pub fn definition_registered(key: &str, outcome: DefineOutcome, eager: bool) -> (r: RegisterStep)
    ensures
        match outcome {
            DefineOutcome::Defined => r == if eager {
                RegisterStep::Run
            } else {
                RegisterStep::Done
            },
            DefineOutcome::Conflict => r matches RegisterStep::Skip { warning } && warning@
                == "cache-warden: definition `"@ + key@
                + "` conflicts with an existing definition; skipped"@,
            DefineOutcome::StaticNotDefinable => r matches RegisterStep::Skip { warning }
                && warning@ == skipped_note(key@, "static source"@),
            DefineOutcome::InvalidKey(e) => r matches RegisterStep::Skip { warning } && warning@
                == skipped_note(key@, e@),
        },
{
    match outcome {
        DefineOutcome::Defined => if eager {
            RegisterStep::Run
        } else {
            RegisterStep::Done
        },
        DefineOutcome::Conflict => RegisterStep::Skip {
            warning: "cache-warden: definition `".to_owned().concat(key).concat(
                "` conflicts with an existing definition; skipped",
            ),
        },
        DefineOutcome::StaticNotDefinable => RegisterStep::Skip {
            warning: skipped_text(key, "static source"),
        },
        DefineOutcome::InvalidKey(e) => RegisterStep::Skip {
            warning: skipped_text(key, e.as_str()),
        },
    }
}

/// What is said of a command that failed at the start. The definition stays:
/// its value comes with a later get.
pub fn preload_warning(key: &str, e: &str) -> (r: String)
    ensures
        r@ == "cache-warden: preload `"@ + key@ + "` failed: "@ + e@,
{
    "cache-warden: preload `".to_owned().concat(key).concat("` failed: ").concat(e)
}

/// What is said of a persisted definition that is passed over.
pub open spec fn persisted_skipped_note(key: Seq<char>, why: Seq<char>) -> Seq<char> {
    "cache-warden: persisted definition `"@ + key + "` skipped: "@ + why
}

/// The step for a persisted definition: the configuration wins over it.
pub fn restore_definition(
    def: &KvDefinition,
    config_names: &[String],
    ttl: Result<(), String>,
) -> (r: RegisterStep)
    ensures
        ({
            let key = defs::file_key(def@);
            if config_names.deep_view().contains(key) {
                r matches RegisterStep::Skip { warning } && warning@
                    == "cache-warden: persisted definition `"@ + key
                    + "` dropped (the config defines it; config wins)"@
            } else if ttl is Err {
                r matches RegisterStep::Skip { warning } && warning@ == persisted_skipped_note(
                    key,
                    ttl->Err_0@,
                )
            } else {
                r matches RegisterStep::Define { key: k } && k@ == key
            }
        }),
{
    let key = def.full_key(namespace::DEFAULT_NAMESPACE);
    if text::list_has(config_names, key.as_str()) {
        return RegisterStep::Skip {
            warning: "cache-warden: persisted definition `".to_owned().concat(key.as_str()).concat(
                "` dropped (the config defines it; config wins)",
            ),
        };
    }
    match ttl {
        Ok(()) => RegisterStep::Define { key },
        Err(e) => RegisterStep::Skip { warning: persisted_skipped_text(key.as_str(), e.as_str()) },
    }
}

/// What is said of a persisted definition that was passed over.
pub fn persisted_skipped_text(key: &str, why: &str) -> (r: String)
    ensures
        r@ == persisted_skipped_note(key@, why@),
{
    "cache-warden: persisted definition `".to_owned().concat(key).concat("` skipped: ").concat(why)
}

/// The definitions that the store has and nobody asks for: neither the
/// configuration nor the persisted file.
pub open spec fn stale_keys(
    defined: Seq<Seq<char>>,
    config_names: Seq<Seq<char>>,
    persisted_names: Seq<Seq<char>>,
) -> Seq<Seq<char>> {
    defined.filter(
        |k: Seq<char>| !config_names.contains(k) && !persisted_names.contains(k),
    )
}

/// The definitions to remove after the start: those that the store has and
/// nobody asks for.
pub fn stale_definitions(
    defined: &[String],
    config_names: &[String],
    persisted_names: &[String],
) -> (r: Vec<String>)
    ensures
        r.deep_view() == stale_keys(
            defined.deep_view(),
            config_names.deep_view(),
            persisted_names.deep_view(),
        ),
{
    let ghost all = defined.deep_view();
    let ghost unasked = |k: Seq<char>|
        !config_names.deep_view().contains(k) && !persisted_names.deep_view().contains(k);
    let mut out: Vec<String> = Vec::new();
    let mut i: usize = 0;
    proof {
        assert(all.take(0) =~= Seq::<Seq<char>>::empty());
        reveal(Seq::filter);
        assert(out.deep_view() =~= all.take(0).filter(unasked));
    }
    while i < defined.len()
        invariant
            i <= defined.len(),
            all == defined.deep_view(),
            unasked == (|k: Seq<char>|
                !config_names.deep_view().contains(k) && !persisted_names.deep_view().contains(k)),
            out.deep_view() == all.take(i as int).filter(unasked),
        decreases defined.len() - i,
    {
        let key = defined[i].as_str();
        proof {
            assert(all.take(i + 1) =~= all.take(i as int).push(all[i as int]));
            all.take(i as int).lemma_filter_push(all[i as int], unasked);
        }
        if !text::list_has(config_names, key) && !text::list_has(persisted_names, key) {
            text::push_text(&mut out, defined[i].clone());
        }
        i += 1;
    }
    assert(all.take(i as int) =~= all);
    out
}

/// Once the stale definitions are removed, every definition left is one of the
/// configuration or of the persisted file; none of these is ever removed.
pub proof fn known_definitions_stay_and_others_go(
    defined: Seq<Seq<char>>,
    config_names: Seq<Seq<char>>,
    persisted_names: Seq<Seq<char>>,
    key: Seq<char>,
)
    requires
        defined.contains(key),
    ensures
        stale_keys(defined, config_names, persisted_names).contains(key) <==> !config_names.contains(
            key,
        ) && !persisted_names.contains(key),
{
    let unasked = |k: Seq<char>| !config_names.contains(k) && !persisted_names.contains(k);
    defined.filter_lemma(unasked);
    let stale = defined.filter(unasked);
    let i = defined.index_of(key);
    assert(defined[i] == key);
    if unasked(key) {
        assert(stale.contains(defined[i]));
    }
    if stale.contains(key) {
        let j = stale.index_of(key);
        assert(unasked(stale[j]));
    }
}

/// The definitions that belong on disk: those that the configuration does not
/// make.
pub open spec fn online(defs: Seq<DefView>, config_names: Seq<Seq<char>>) -> Seq<DefView> {
    defs.filter(|d: DefView| !config_names.contains(defs::file_key(d)))
}

/// The definitions that belong on disk, out of all that the store has.
pub fn online_definitions(snapshot: &[KvDefinition], config_names: &[String]) -> (r: Vec<
    KvDefinition,
>)
    ensures
        r.deep_view() == online(snapshot.deep_view(), config_names.deep_view()),
{
    let ghost all = snapshot.deep_view();
    let ghost kept = |d: DefView| !config_names.deep_view().contains(defs::file_key(d));
    let mut out: Vec<KvDefinition> = Vec::new();
    let mut i: usize = 0;
    proof {
        assert(all.take(0) =~= Seq::<DefView>::empty());
        reveal(Seq::filter);
        assert(out.deep_view() =~= all.take(0).filter(kept));
    }
    while i < snapshot.len()
        invariant
            i <= snapshot.len(),
            all == snapshot.deep_view(),
            kept == (|d: DefView| !config_names.deep_view().contains(defs::file_key(d))),
            out.deep_view() == all.take(i as int).filter(kept),
        decreases snapshot.len() - i,
    {
        let ghost before = out.deep_view();
        let key = snapshot[i].full_key(namespace::DEFAULT_NAMESPACE);
        proof {
            assert(all.take(i + 1) =~= all.take(i as int).push(all[i as int]));
            all.take(i as int).lemma_filter_push(all[i as int], kept);
        }
        if !text::list_has(config_names, key.as_str()) {
            let def = defs::copy_definition(&snapshot[i]);
            out.push(def);
            assert(out.deep_view() =~= before.push(def@));
        }
        i += 1;
    }
    assert(all.take(i as int) =~= all);
    out
}

/// No definition of the configuration is written to disk, and every other one
/// is.
pub proof fn only_online_definitions_are_written(
    defs: Seq<DefView>,
    config_names: Seq<Seq<char>>,
    def: DefView,
)
    requires
        defs.contains(def),
    ensures
        online(defs, config_names).contains(def) <==> !config_names.contains(defs::file_key(def)),
{
    let kept = |d: DefView| !config_names.contains(defs::file_key(d));
    defs.filter_lemma(kept);
    let left = defs.filter(kept);
    let i = defs.index_of(def);
    assert(defs[i] == def);
    if kept(def) {
        assert(left.contains(defs[i]));
    }
    if left.contains(def) {
        let j = left.index_of(def);
        assert(kept(left[j]));
    }
}

/// The number of open connections.
#[derive(Debug, Clone, PartialEq, Eq)]
pub struct ConnectionCount {
    pub open: usize,
}

impl ConnectionCount {
    pub fn new() -> (r: ConnectionCount)
        ensures
            r.open == 0,
    {
        ConnectionCount { open: 0 }
    }

    /// One more connection.
    pub fn inc(&mut self)
        requires
            old(self).open < usize::MAX,
        ensures
            final(self).open == old(self).open + 1,
    {
        self.open += 1;
    }

    /// One connection less; true where it was the last, which is when those who
    /// wait for all to close are woken.
    pub fn dec(&mut self) -> (last: bool)
        requires
            old(self).open > 0,
        ensures
            final(self).open == old(self).open - 1,
            last == (final(self).open == 0),
    {
        self.open -= 1;
        self.open == 0
    }

    /// Whether all connections are closed.
    pub fn drained(&self) -> (r: bool)
        ensures
            r == (self.open == 0),
    {
        self.open == 0
    }
}

} // verus!
