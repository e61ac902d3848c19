//! The definitions at the daemon's start. What the configuration declares is
//! registered and, where it is wanted at once, run; what was persisted comes
//! back; what nobody asks for any more goes; and the rest is written to disk.
//!
//! Nothing here stops the daemon from coming up: what cannot be done is left
//! out with a warning.

use vstd::pervasive::unreached;
use vstd::prelude::*;

use crate::chain;
use crate::config::{DefView, KvDefinition};
use crate::daemon::handler;
use crate::daemon::handler::{DefineOutcome, ValueMeta};
use crate::daemon::server;
use crate::daemon::server::RegisterStep;
use crate::daemon::store;
use crate::daemon::store::SecretStore;
use crate::defs;
use crate::defs::StoreKey;
use crate::text;
use crate::wire::SourceSpecWire;

verus! {

/// What the start asks of the store beyond what a request does.
pub trait StartingStore: SecretStore {
    /// The keys that hold a value.
    fn loaded_keys(&self) -> Vec<String>;

    /// The keys that have a definition.
    fn defined_keys(&self) -> Vec<String>;

    /// Every key, with its definition where it has one.
    fn definitions(&self) -> Vec<StoreKey>;

    /// Drop the definition of the key. Its value stays.
    fn undefine(&mut self, key: &str);

    /// Run the command of the key's definition and keep what it gives.
    fn preload(&mut self, key: &str) -> Result<(), String>;

    /// Register a definition again, or say why that cannot be.
    fn restore(
        &mut self,
        key: &str,
        source: SourceSpecWire,
        soft_secs: Option<u64>,
        hard_secs: Option<u64>,
        meta: ValueMeta,
    ) -> Result<(), String>;
}

/// The notes that were made, in their order.
pub open spec fn told(notes: Seq<Option<String>>) -> Seq<Seq<char>>
    decreases notes.len(),
{
    if notes.len() == 0 {
        Seq::empty()
    } else {
        match notes.last() {
            Some(note) => told(notes.drop_last()).push(note@),
            None => told(notes.drop_last()),
        }
    }
}

/// What the store says while a definition of the configuration is registered.
pub struct Registration {
    /// Whether the times to live go together.
    pub ttl: Result<(), String>,
    pub defined: DefineOutcome,
    /// What came of running the command.
    pub run: Result<(), String>,
}

/// The warning about a definition of the configuration, where there is one.
pub open spec fn registration_note(
    entry: DefView,
    seen: Registration,
    force_eager: Seq<Seq<char>>,
    already_loaded: Seq<Seq<char>>,
) -> Option<Seq<char>> {
    let key = defs::file_key(entry);
    match seen.ttl {
        Err(e) => Some(server::skipped_note(key, e@)),
        Ok(()) => match seen.defined {
            DefineOutcome::Conflict => Some(
                "cache-warden: definition `"@ + key
                    + "` conflicts with an existing definition; skipped"@,
            ),
            DefineOutcome::StaticNotDefinable => Some(
                server::skipped_note(key, "static source"@),
            ),
            DefineOutcome::InvalidKey(e) => Some(server::skipped_note(key, e@)),
            DefineOutcome::Defined => match seen.run {
                Err(e) => if server::eager(entry.preload, key, force_eager, already_loaded) {
                    Some("cache-warden: preload `"@ + key + "` failed: "@ + e@)
                } else {
                    None
                },
                Ok(()) => None,
            },
        },
    }
}

/// Register one definition of the configuration, and run its command where it is
/// wanted at once. The warning, where there is one.
pub fn register_one<S: StartingStore>(
    store: &mut S,
    entry: &KvDefinition,
    force_eager: &[String],
    already_loaded: &[String],
) -> (r: Option<String>)
    ensures
        exists|seen: Registration|
            r.deep_view() == #[trigger] registration_note(
                entry@,
                seen,
                force_eager.deep_view(),
                already_loaded.deep_view(),
            ) && store::finds_ttl(*old(store), entry.soft_ttl_secs, entry.hard_ttl_secs, seen.ttl)
                && if seen.ttl is Err {
                *final(store) == *old(store)
            } else {
                exists|m: &mut S, k: &str, source: SourceSpecWire, meta: ValueMeta|
                    *m == *old(store) && k@ == defs::file_key(entry@) && source@ == entry@.source && meta@ == handler::stored_meta(entry@.meta) && #[trigger] call_ensures(
                        S::define,
                        (m, k, source, entry.soft_ttl_secs, entry.hard_ttl_secs, meta),
                        seen.defined,
                    ) && if seen.defined is Defined && server::eager(
                        entry.preload,
                        defs::file_key(entry@),
                        force_eager.deep_view(),
                        already_loaded.deep_view(),
                    ) {
                        exists|n: &mut S, l: &str|
                            *n == *final(m) && *final(n) == *final(store) && l@ == defs::file_key(
                                entry@,
                            ) && #[trigger] call_ensures(S::preload, (n, l), seen.run)
                    } else {
                        *final(store) == *final(m)
                    }
            },
{
    let ghost force = force_eager.deep_view();
    let ghost loaded = already_loaded.deep_view();
    let ttl = store.check_ttl(entry.soft_ttl_secs, entry.hard_ttl_secs);
    let ghost mut seen = Registration { ttl, defined: DefineOutcome::Defined, run: Ok(()) };
    let key = match server::register_definition(entry, ttl) {
        RegisterStep::Define { key } => key,
        RegisterStep::Skip { warning } => {
            let r = Some(warning);
            assert(r.deep_view() == registration_note(entry@, seen, force, loaded));
            return r;
        },
        _ => unreached(),
    };
    let copy = defs::copy_definition(entry);
    let source = copy.source;
    let meta = handler::meta_from_wire(copy.meta);
    let defined = store.define(
        key.as_str(),
        source,
        entry.soft_ttl_secs,
        entry.hard_ttl_secs,
        meta,
    );
    proof {
        seen = Registration { defined, ..seen };
    }
    let eager = server::runs_eagerly(entry.preload, key.as_str(), force_eager, already_loaded);
    let r = match server::definition_registered(key.as_str(), defined, eager) {
        RegisterStep::Skip { warning } => Some(warning),
        RegisterStep::Run => {
            let run = store.preload(key.as_str());
            proof {
                seen = Registration { run, ..seen };
            }
            match run {
                Ok(()) => None,
                Err(e) => Some(server::preload_warning(key.as_str(), e.as_str())),
            }
        },
        _ => None,
    };
    assert(r.deep_view() == registration_note(entry@, seen, force, loaded));
    r
}

/// Register the definitions of the configuration, and run those that are wanted
/// at once: `force_eager` are the keys that agent sockets need, and
/// `already_loaded` those that came with a value. The warnings.
pub fn register_definitions<S: StartingStore>(
    store: &mut S,
    entries: &[KvDefinition],
    force_eager: &[String],
    already_loaded: &[String],
) -> (warnings: Vec<String>)
    ensures
        exists|notes: Seq<Option<String>>, states: Seq<S>| #[trigger]
            chain::leads(states, *old(store), *final(store), entries@.len()) && notes.len()
                == entries@.len() && warnings.deep_view() == #[trigger] told(notes) && forall|
                i: int,
            | #[trigger]
                chain::is_step(states, i) ==> (exists|m: &mut S|
                    *m == states[i] && *final(m) == states[i + 1] && #[trigger] call_ensures(
                        register_one::<S>,
                        (m, &entries@[i], force_eager, already_loaded),
                        notes[i],
                    )),
{
    let ghost mut notes: Seq<Option<String>> = Seq::empty();
    let ghost mut states: Seq<S> = seq![*store];
    let mut warnings: Vec<String> = Vec::new();
    let mut i: usize = 0;
    assert(warnings.deep_view() =~= Seq::<Seq<char>>::empty());
    while i < entries.len()
        invariant
            i <= entries.len(),
            chain::leads(states, *old(store), *store, i as nat),
            notes.len() == i,
            warnings.deep_view() == told(notes),
            forall|j: int| #[trigger]
                chain::is_step(states, j) ==> (exists|m: &mut S|
                    *m == states[j] && *final(m) == states[j + 1] && #[trigger] call_ensures(
                        register_one::<S>,
                        (m, &entries@[j], force_eager, already_loaded),
                        notes[j],
                    )),
        decreases entries.len() - i,
    {
        let ghost before = states;
        let ghost made = notes;
        let note = register_one(store, &entries[i], force_eager, already_loaded);
        proof {
            states = before.push(*store);
            notes = made.push(note);
            assert(notes.drop_last() =~= made);
            assert forall|j: int| #[trigger] chain::is_step(states, j) implies (exists|m: &mut S|
                *m == states[j] && *final(m) == states[j + 1] && #[trigger] call_ensures(
                    register_one::<S>,
                    (m, &entries@[j], force_eager, already_loaded),
                    notes[j],
                )) by {
                assert(states[j] == before[j]);
                if chain::is_step(before, j) {
                    assert(states[j + 1] == before[j + 1] && notes[j] == made[j]);
                } else {
                    assert(states[j + 1] == *store && notes[j] == note);
                }
            }
        }
        if let Some(warning) = note {
            text::push_text(&mut warnings, warning);
        }
        i += 1;
    }
    assert(chain::leads(states, *old(store), *store, entries@.len()));
    warnings
}

/// What the store says while a persisted definition is restored.
pub struct Restoration {
    /// Whether the times to live go together.
    pub ttl: Result<(), String>,
    pub defined: Result<(), String>,
}

/// The warning about a persisted definition, where there is one: the
/// configuration wins.
pub open spec fn restoration_note(
    def: DefView,
    seen: Restoration,
    config_names: Seq<Seq<char>>,
) -> Option<Seq<char>> {
    let key = defs::file_key(def);
    if config_names.contains(key) {
        Some(
            "cache-warden: persisted definition `"@ + key
                + "` dropped (the config defines it; config wins)"@,
        )
    } else {
        match (seen.ttl, seen.defined) {
            (Err(e), _) => Some(server::persisted_skipped_note(key, e@)),
            (Ok(()), Err(e)) => Some(server::persisted_skipped_note(key, e@)),
            (Ok(()), Ok(())) => None,
        }
    }
}

/// Bring one persisted definition back, unless the configuration defines its key.
/// The warning, where there is one.
pub fn restore_one<S: StartingStore>(
    store: &mut S,
    def: &KvDefinition,
    config_names: &[String],
) -> (r: Option<String>)
    ensures
        exists|seen: Restoration|
            r.deep_view() == #[trigger] restoration_note(def@, seen, config_names.deep_view())
                && store::finds_ttl(*old(store), def.soft_ttl_secs, def.hard_ttl_secs, seen.ttl)
                && if config_names.deep_view().contains(defs::file_key(def@)) || seen.ttl is Err {
                *final(store) == *old(store)
            } else {
                exists|m: &mut S, k: &str, source: SourceSpecWire, meta: ValueMeta|
                    *m == *old(store) && *final(m) == *final(store) && k@ == defs::file_key(def@)
                        && source@ == def@.source && meta@ == handler::stored_meta(def@.meta)
                        && #[trigger] call_ensures(
                        S::restore,
                        (m, k, source, def.soft_ttl_secs, def.hard_ttl_secs, meta),
                        seen.defined,
                    )
            },
{
    let ghost names = config_names.deep_view();
    let ttl = store.check_ttl(def.soft_ttl_secs, def.hard_ttl_secs);
    let ghost mut seen = Restoration { ttl, defined: Ok(()) };
    let key = match server::restore_definition(def, config_names, ttl) {
        RegisterStep::Define { key } => key,
        RegisterStep::Skip { warning } => {
            let r = Some(warning);
            assert(r.deep_view() == restoration_note(def@, seen, names));
            return r;
        },
        _ => unreached(),
    };
    let copy = defs::copy_definition(def);
    let source = copy.source;
    let meta = handler::meta_from_wire(copy.meta);
    let defined = store.restore(
        key.as_str(),
        source,
        def.soft_ttl_secs,
        def.hard_ttl_secs,
        meta,
    );
    proof {
        seen = Restoration { defined, ..seen };
    }
    let r = match defined {
        Ok(()) => None,
        Err(e) => Some(server::persisted_skipped_text(key.as_str(), e.as_str())),
    };
    assert(r.deep_view() == restoration_note(def@, seen, names));
    r
}

/// Bring the persisted definitions back. A key that the configuration defines
/// is the configuration's: its persisted definition is dropped. The warnings.
pub fn restore_persisted_definitions<S: StartingStore>(
    store: &mut S,
    persisted: &[KvDefinition],
    config_names: &[String],
) -> (warnings: Vec<String>)
    ensures
        exists|notes: Seq<Option<String>>, states: Seq<S>| #[trigger]
            chain::leads(states, *old(store), *final(store), persisted@.len()) && notes.len()
                == persisted@.len() && warnings.deep_view() == #[trigger] told(notes) && forall|
                i: int,
            | #[trigger]
                chain::is_step(states, i) ==> (exists|m: &mut S|
                    *m == states[i] && *final(m) == states[i + 1] && #[trigger] call_ensures(
                        restore_one::<S>,
                        (m, &persisted@[i], config_names),
                        notes[i],
                    )),
{
    let ghost mut notes: Seq<Option<String>> = Seq::empty();
    let ghost mut states: Seq<S> = seq![*store];
    let mut warnings: Vec<String> = Vec::new();
    let mut i: usize = 0;
    assert(warnings.deep_view() =~= Seq::<Seq<char>>::empty());
    while i < persisted.len()
        invariant
            i <= persisted.len(),
            chain::leads(states, *old(store), *store, i as nat),
            notes.len() == i,
            warnings.deep_view() == told(notes),
            forall|j: int| #[trigger]
                chain::is_step(states, j) ==> (exists|m: &mut S|
                    *m == states[j] && *final(m) == states[j + 1] && #[trigger] call_ensures(
                        restore_one::<S>,
                        (m, &persisted@[j], config_names),
                        notes[j],
                    )),
        decreases persisted.len() - i,
    {
        let ghost before = states;
        let ghost made = notes;
        let note = restore_one(store, &persisted[i], config_names);
        proof {
            states = before.push(*store);
            notes = made.push(note);
            assert(notes.drop_last() =~= made);
            assert forall|j: int| #[trigger] chain::is_step(states, j) implies (exists|m: &mut S|
                *m == states[j] && *final(m) == states[j + 1] && #[trigger] call_ensures(
                    restore_one::<S>,
                    (m, &persisted@[j], config_names),
                    notes[j],
                )) by {
                assert(states[j] == before[j]);
                if chain::is_step(before, j) {
                    assert(states[j + 1] == before[j + 1] && notes[j] == made[j]);
                } else {
                    assert(states[j + 1] == *store && notes[j] == note);
                }
            }
        }
        if let Some(warning) = note {
            text::push_text(&mut warnings, warning);
        }
        i += 1;
    }
    assert(chain::leads(states, *old(store), *store, persisted@.len()));
    warnings
}

/// Drop the definition of each key, in order.
pub fn undefine_all<S: StartingStore>(store: &mut S, keys: &[String])
    ensures
        exists|states: Seq<S>| #[trigger]
            chain::leads(states, *old(store), *final(store), keys@.len()) && forall|i: int| #[trigger]
                chain::is_step(states, i) ==> (exists|m: &mut S, k: &str|
                    k@ == keys@[i]@ && *m == states[i] && *final(m) == states[i + 1]
                        && #[trigger] call_ensures(S::undefine, (m, k), ())),
{
    let mut i: usize = 0;
    let ghost mut states: Seq<S> = seq![*store];
    while i < keys.len()
        invariant
            i <= keys.len(),
            chain::leads(states, *old(store), *store, i as nat),
            forall|j: int| #[trigger]
                chain::is_step(states, j) ==> (exists|m: &mut S, k: &str|
                    k@ == keys@[j]@ && *m == states[j] && *final(m) == states[j + 1]
                        && #[trigger] call_ensures(S::undefine, (m, k), ())),
        decreases keys.len() - i,
    {
        let ghost before = states;
        store.undefine(keys[i].as_str());
        proof {
            states = states.push(*store);
            assert forall|j: int| #[trigger] chain::is_step(states, j) implies (exists|
                m: &mut S,
                k: &str,
            |
                k@ == keys@[j]@ && *m == states[j] && *final(m) == states[j + 1]
                    && #[trigger] call_ensures(S::undefine, (m, k), ())) by {
                assert(states[j] == before[j]);
                if chain::is_step(before, j) {
                    assert(states[j + 1] == before[j + 1]);
                }
            }
        }
        i += 1;
    }
    assert(chain::leads(states, *old(store), *store, keys@.len()));
}

/// Drop the definitions of the keys that the configuration defines, so that it
/// can define them anew. Their values stay.
pub fn clear_config_owned_definitions<S: StartingStore>(store: &mut S, config_names: &[String])
    ensures
        exists|states: Seq<S>| #[trigger]
            chain::leads(states, *old(store), *final(store), config_names@.len()) && forall|i: int| #[trigger]
                chain::is_step(states, i) ==> (exists|m: &mut S, k: &str|
                    k@ == config_names@[i]@ && *m == states[i] && *final(m) == states[i + 1]
                        && #[trigger] call_ensures(S::undefine, (m, k), ())),
{
    undefine_all(store, config_names);
}

/// Remove the definitions that neither the configuration nor the persisted file
/// asks for. The keys that lost theirs.
pub fn purge_stale_import_definitions<S: StartingStore>(
    store: &mut S,
    config_names: &[String],
    persisted_names: &[String],
) -> (stale: Vec<String>)
    ensures
        exists|defined: Vec<String>| #[trigger]
            call_ensures(S::defined_keys, (&*old(store),), defined) && stale.deep_view()
                == server::stale_keys(
                defined.deep_view(),
                config_names.deep_view(),
                persisted_names.deep_view(),
            ),
        exists|m: &mut S, gone: &[String]|
            *m == *old(store) && *final(m) == *final(store) && gone@ == stale@
                && #[trigger] call_ensures(undefine_all::<S>, (m, gone), ()),
{
    let defined = store.defined_keys();
    let slice = defined.as_slice();
    assert(slice.deep_view() =~= defined.deep_view());
    let stale = server::stale_definitions(slice, config_names, persisted_names);
    let gone = stale.as_slice();
    undefine_all(store, gone);
    stale
}

/// `saved` are the definitions that belong on disk where the store holds
/// `keys`.
pub open spec fn belongs_on_disk(
    saved: Seq<DefView>,
    keys: Seq<StoreKey>,
    config_names: Seq<Seq<char>>,
) -> bool {
    saved == server::online(defs::in_key_order(defs::persistable_all(keys)), config_names)
}

/// The file of persisted definitions. Nothing is promised of it.
pub trait DefinitionFile {
    /// Read the definitions, or say why that cannot be.
    fn load(&mut self) -> Result<Vec<KvDefinition>, String>;

    /// Write these definitions in place of what there was.
    fn save(&mut self, defs: &[KvDefinition]) -> Result<(), String>;
}

/// Nothing that the configuration defines is ever handed over to be written.
pub proof fn config_definitions_never_reach_the_disk(
    saved: Seq<DefView>,
    keys: Seq<StoreKey>,
    config_names: Seq<Seq<char>>,
    i: int,
)
    requires
        belongs_on_disk(saved, keys, config_names),
        0 <= i < saved.len(),
    ensures
        !config_names.contains(defs::file_key(saved[i])),
{
    let all = defs::in_key_order(defs::persistable_all(keys));
    let kept = |d: DefView| !config_names.contains(defs::file_key(d));
    all.filter_lemma(kept);
    assert(kept(saved[i]));
}

/// Write the definitions that belong on disk, where they are persisted at all:
/// `config_names` is `None` where they are not.
pub fn persist_if_enabled<S: StartingStore, F: DefinitionFile>(
    store: &S,
    config_names: Option<&[String]>,
    file: &mut F,
) -> (r: Result<(), String>)
    ensures
        match config_names {
            None => r is Ok && *final(file) == *old(file),
            Some(names) => exists|keys: Vec<StoreKey>, f: &mut F, saved: &[KvDefinition]| #[trigger]
                call_ensures(S::definitions, (store,), keys) && *f == *old(file) && *final(f)
                    == *final(file) && belongs_on_disk(
                    saved.deep_view(),
                    keys@,
                    names.deep_view(),
                ) && #[trigger] call_ensures(F::save, (f, saved), r),
        },
{
    match config_names {
        None => Ok(()),
        Some(names) => {
            let keys = store.definitions();
            let snapshot = defs::snapshot_definitions(keys.as_slice());
            let all = snapshot.as_slice();
            assert(all.deep_view() =~= snapshot.deep_view());
            let online = server::online_definitions(all, names);
            let saved = online.as_slice();
            assert(saved.deep_view() =~= online.deep_view());
            file.save(saved)
        },
    }
}

/// What is said where the definitions could not be written at the start.
pub open spec fn unwritten_note(path: Seq<char>, e: Seq<char>) -> Seq<char> {
    "cache-warden: warning: could not write persisted definitions "@ + path + ": "@ + e
}

/// Write the definitions that belong on disk to the file at `path`. A failure
/// is only a warning.
pub fn write_online_definitions<S: StartingStore, F: DefinitionFile>(
    store: &S,
    config_names: &[String],
    path: &str,
    file: &mut F,
) -> (r: Option<String>)
    ensures
        exists|f: &mut F, result: Result<(), String>|
            *f == *old(file) && *final(f) == *final(file) && #[trigger] call_ensures(
                persist_if_enabled::<S, F>,
                (store, Some(config_names), f),
                result,
            ) && match result {
                Ok(()) => r is None,
                Err(e) => r matches Some(note) && note@ == unwritten_note(path@, e@),
            },
{
    let result = persist_if_enabled(store, Some(config_names), file);
    match result {
        Ok(()) => None,
        Err(e) => Some(
            "cache-warden: warning: could not write persisted definitions ".to_owned().concat(
                path,
            ).concat(": ").concat(e.as_str()),
        ),
    }
}

fn push_all(list: &mut Vec<String>, more: Vec<String>)
    ensures
        final(list).deep_view() == old(list).deep_view() + more.deep_view(),
{
    let ghost start = list.deep_view();
    let ghost rest = more.deep_view();
    let mut i: usize = 0;
    assert(start + rest.take(0) =~= start);
    while i < more.len()
        invariant
            i <= more.len(),
            rest == more.deep_view(),
            list.deep_view() == start + rest.take(i as int),
        decreases more.len() - i,
    {
        text::push_text(list, more[i].clone());
        assert(list.deep_view() =~= start + rest.take(i + 1));
        i += 1;
    }
    assert(rest.take(i as int) =~= rest);
}

/// What is said of a file of persisted definitions that does not read.
pub open spec fn unread_note(e: Seq<char>) -> Seq<char> {
    "cache-warden: "@ + e + "; ignoring persisted definitions"@
}

/// The warnings with one more, where there is one.
pub open spec fn noted(warnings: Seq<Seq<char>>, more: Option<String>) -> Seq<Seq<char>> {
    match more {
        Some(note) => warnings.push(note@),
        None => warnings,
    }
}

/// The start finds the keys `names` defined by the configuration, and the store
/// may say that the keys `loaded` hold a value.
pub open spec fn starts_from<S: StartingStore>(
    store: S,
    config_defs: Seq<DefView>,
    names: &[String],
    loaded: Vec<String>,
) -> bool {
    names.deep_view() == server::definition_keys(config_defs) && call_ensures(
        S::loaded_keys,
        (&store,),
        loaded,
    )
}

/// Set up the definitions at the start. `agent_keys` are the keys that agent
/// sockets need at once. Where definitions are persisted, `persist_path` names
/// the file, which is read once, and written anew at the end; a file that does
/// not read is left out of account, and is then overwritten. The warnings.
pub fn start_definitions<S: StartingStore, F: DefinitionFile>(
    store: &mut S,
    config_defs: &[KvDefinition],
    agent_keys: &[String],
    persist_path: Option<&str>,
    file: &mut F,
) -> (warnings: Vec<String>)
    ensures
        exists|names: &[String], loaded: Vec<String>| #[trigger]
            starts_from(*old(store), config_defs.deep_view(), names, loaded) && exists|a: &mut S|
                *a == *old(store) && #[trigger] call_ensures(
                    clear_config_owned_definitions::<S>,
                    (a, names),
                    (),
                ) && exists|b: &mut S, held: &[String], registered: Vec<String>|
                    *b == *final(a) && held@ == loaded@ && #[trigger] call_ensures(
                        register_definitions::<S>,
                        (b, config_defs, agent_keys, held),
                        registered,
                    ) && match persist_path {
                        None => warnings.deep_view() == registered.deep_view() && *final(store)
                            == *final(b) && *final(file) == *old(file),
                        Some(path) => exists|f: &mut F, read: Result<Vec<KvDefinition>, String>|
                            *f == *old(file) && #[trigger] call_ensures(F::load, (f,), read)
                                && match read {
                                Err(e) => *final(store) == *final(b) && exists|
                                    g: &mut F,
                                    unwritten: Option<String>,
                                |
                                    *g == *final(f) && *final(g) == *final(file)
                                        && #[trigger] call_ensures(
                                        write_online_definitions::<S, F>,
                                        (&*final(store), names, path, g),
                                        unwritten,
                                    ) && warnings.deep_view() == noted(
                                        registered.deep_view().push(unread_note(e@)),
                                        unwritten,
                                    ),
                                Ok(persisted) => exists|
                                    c: &mut S,
                                    found: &[KvDefinition],
                                    restored: Vec<String>,
                                |
                                    *c == *final(b) && found@ == persisted@
                                        && #[trigger] call_ensures(
                                        restore_persisted_definitions::<S>,
                                        (c, found, names),
                                        restored,
                                    ) && exists|d: &mut S, asked: &[String], stale: Vec<String>|
                                        *d == *final(c) && *final(d) == *final(store)
                                            && asked.deep_view() == server::definition_keys(
                                            found.deep_view(),
                                        ) && #[trigger] call_ensures(
                                            purge_stale_import_definitions::<S>,
                                            (d, names, asked),
                                            stale,
                                        ) && exists|g: &mut F, unwritten: Option<String>|
                                            *g == *final(f) && *final(g) == *final(file)
                                                && #[trigger] call_ensures(
                                                write_online_definitions::<S, F>,
                                                (&*final(store), names, path, g),
                                                unwritten,
                                            ) && warnings.deep_view() == noted(
                                                registered.deep_view() + restored.deep_view(),
                                                unwritten,
                                            ),
                            },
                    },
{
    let config_names = server::definition_names(config_defs);
    let names = config_names.as_slice();
    assert(names.deep_view() =~= config_names.deep_view());
    let loaded = store.loaded_keys();
    assert(starts_from(*old(store), config_defs.deep_view(), names, loaded));
    clear_config_owned_definitions(store, names);
    let mut warnings = register_definitions(store, config_defs, agent_keys, loaded.as_slice());
    if let Some(path) = persist_path {
        match file.load() {
            Ok(persisted) => {
                let found = persisted.as_slice();
                let persisted_names = server::definition_names(found);
                let asked = persisted_names.as_slice();
                assert(asked.deep_view() =~= persisted_names.deep_view());
                push_all(&mut warnings, restore_persisted_definitions(store, found, names));
                purge_stale_import_definitions(store, names, asked);
            },
            Err(e) => {
                text::push_text(
                    &mut warnings,
                    "cache-warden: ".to_owned().concat(e.as_str()).concat(
                        "; ignoring persisted definitions",
                    ),
                );
            },
        }
        let unwritten = write_online_definitions(&*store, names, path, file);
        if let Some(warning) = unwritten {
            text::push_text(&mut warnings, warning);
        }
    }
    warnings
}

/// The configuration wins: a persisted definition of a key that it defines is
/// passed over with a warning, and the store is left as it is.
pub proof fn the_configuration_wins<S: StartingStore>(
    store: S,
    def: &KvDefinition,
    config_names: &[String],
)
    requires
        config_names.deep_view().contains(defs::file_key(def@)),
    ensures
        forall|m: &mut S, note: Option<String>|
            *m == store && #[trigger] call_ensures(restore_one::<S>, (m, def, config_names), note)
                ==> *final(m) == store && note is Some,
{
}

} // verus!
