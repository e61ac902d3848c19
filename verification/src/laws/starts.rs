//! Laws of the daemon's start and stop.

use vstd::prelude::*;

use crate::config::KvDefinition;
use crate::daemon::handler::DefineOutcome;
use crate::daemon::server;
use crate::daemon::server::{BindStep, ConnectionCount, RegisterStep, ServerError, StartupEvent};
use crate::text;

verus! {

/// Two daemons never share a socket: one that is answered on is left alone, what
/// a dead daemon left is removed.
pub proof fn a_socket_has_one_daemon(path: &str, present: bool, live: bool, r: BindStep)
    requires
        call_ensures(server::bind_step, (path, present, live), r),
    ensures
        r is Refuse <==> present && live,
        r is RemoveStale <==> present && !live,
        r is Bind <==> !present,
{
}

/// A start that was stopped or broke off is not one.
pub proof fn only_a_finished_start_is_one(event: StartupEvent, r: Result<(), ServerError>)
    requires
        call_ensures(server::startup_result, (event,), r),
    ensures
        event is Finished <==> r is Ok,
        event is StopSignal <==> (r matches Err(e) && e is ShutdownDuringStartup),
{
}

/// Each weakness of the process is warned of, and nothing else is.
pub proof fn weaknesses_are_warned_of(
    core_dumps_off: bool,
    allow_debug_attach: bool,
    attach_refused: bool,
    r: Vec<String>,
)
    requires
        call_ensures(
            server::hardening_warnings,
            (core_dumps_off, allow_debug_attach, attach_refused),
            r,
        ),
    ensures
        r@.len() == (if core_dumps_off {
            0nat
        } else {
            1
        }) + (if !allow_debug_attach && attach_refused {
            0nat
        } else {
            1
        }),
{
    assert(r.deep_view().len() == r@.len());
}

/// Only a restart waits for open connections, and only a daemon that takes over
/// reaches back in time: by a day.
pub proof fn restarts_wait_and_reach_back(
    restart: bool,
    takes_over: bool,
    drain: Option<u64>,
    headroom: u64,
)
    requires
        call_ensures(server::drain_deadline_secs, (restart,), drain),
        call_ensures(server::clock_headroom_secs, (takes_over,), headroom),
    ensures
        restart <==> drain == Some(5u64),
        !restart <==> drain is None,
        takes_over ==> headroom == 24 * 60 * 60,
        !takes_over ==> headroom == 0,
{
}

/// A line of white space alone is passed over.
pub proof fn blank_lines_are_passed_over(line: &str, t: &str, r: bool)
    requires
        call_ensures(text::trim, (line,), t),
        call_ensures(server::is_blank_line, (line,), r),
    ensures
        r <==> t@.len() == 0,
{
}

/// The key of a definition, in its own namespace or else in `default`.
pub open spec fn key_of(def: KvDefinition) -> Seq<char> {
    (match def.namespace {
        Some(ns) => ns@,
        None => "default"@,
    }) + seq!['/'] + def.name@
}

pub(crate) proof fn keys_of_files(def: KvDefinition)
    ensures
        crate::defs::file_key(def@) == key_of(def),
{
    reveal_strlit("/");
    assert("/"@ =~= seq!['/']);
}

/// Definitions go by their keys, in order.
pub proof fn definitions_go_by_their_keys(defs: &[KvDefinition], r: Vec<String>)
    requires
        call_ensures(server::definition_names, (defs,), r),
    ensures
        r@.len() == defs@.len(),
        forall|i: int| 0 <= i < r@.len() ==> (#[trigger] r@[i])@ == key_of(defs@[i]),
{
    assert(r.deep_view().len() == r@.len());
    assert forall|i: int| 0 <= i < r@.len() implies (#[trigger] r@[i])@ == key_of(defs@[i]) by {
        assert(r.deep_view()[i] == r@[i]@);
        assert(defs.deep_view()[i] == defs@[i]@);
        keys_of_files(defs@[i]);
    }
}

/// A definition of the configuration is registered under its key, unless its
/// times to live do not go together.
pub proof fn configured_definitions_are_registered(
    entry: &KvDefinition,
    ttl: Result<(), String>,
    r: RegisterStep,
)
    requires
        call_ensures(server::register_definition, (entry, ttl), r),
    ensures
        ttl is Ok <==> (r matches RegisterStep::Define { key } && key@ == key_of(*entry)),
        ttl is Err <==> r is Skip,
{
    keys_of_files(*entry);
}

/// A command is run at the start exactly where the entry or an agent socket asks
/// for it and the value is not there yet.
pub proof fn what_is_fetched_at_the_start(
    preload: bool,
    key: &str,
    force_eager: &[String],
    already_loaded: &[String],
    r: bool,
)
    requires
        call_ensures(server::runs_eagerly, (preload, key, force_eager, already_loaded), r),
    ensures
        r <==> (preload || exists|i: int|
            0 <= i < force_eager@.len() && (#[trigger] force_eager@[i])@ == key@) && !(exists|
            i: int,
        | 0 <= i < already_loaded@.len() && (#[trigger] already_loaded@[i])@ == key@),
{
    listed(force_eager, key@);
    listed(already_loaded, key@);
}

proof fn listed(list: &[String], word: Seq<char>)
    ensures
        list.deep_view().contains(word) <==> exists|i: int|
            0 <= i < list@.len() && (#[trigger] list@[i])@ == word,
{
    let words = list.deep_view();
    if words.contains(word) {
        let i = choose|i: int| 0 <= i < words.len() && words[i] == word;
        assert(list@[i]@ == word);
    }
    if exists|i: int| 0 <= i < list@.len() && (#[trigger] list@[i])@ == word {
        let i = choose|i: int| 0 <= i < list@.len() && (#[trigger] list@[i])@ == word;
        assert(words[i] == word);
    }
}

/// A definition that the store took is run where that is to be, and left to the
/// first get otherwise; one that it did not take is passed over.
pub proof fn registered_definitions_are_run_or_left(
    key: &str,
    outcome: DefineOutcome,
    eager: bool,
    r: RegisterStep,
)
    requires
        call_ensures(server::definition_registered, (key, outcome, eager), r),
    ensures
        r is Run <==> outcome is Defined && eager,
        r is Done <==> outcome is Defined && !eager,
        r is Skip <==> !(outcome is Defined),
{
}

/// A persisted definition is restored under its key, unless the configuration
/// makes the key or its times to live do not go together.
pub proof fn the_configuration_wins_over_the_file(
    def: &KvDefinition,
    config_names: &[String],
    ttl: Result<(), String>,
    r: RegisterStep,
)
    requires
        call_ensures(server::restore_definition, (def, config_names, ttl), r),
    ensures
        ({
            let configured = exists|i: int|
                0 <= i < config_names@.len() && (#[trigger] config_names@[i])@ == key_of(*def);
            &&& !configured && ttl is Ok <==> (r matches RegisterStep::Define { key } && key@
                == key_of(*def))
            &&& configured || ttl is Err <==> r is Skip
        }),
{
    keys_of_files(*def);
    listed(config_names, key_of(*def));
}

/// What is removed after the start is what nobody asks for, in order: a key goes
/// exactly where neither the configuration nor the file names it.
pub proof fn what_nobody_asks_for_goes(
    defined: &[String],
    config_names: &[String],
    persisted_names: &[String],
    r: Vec<String>,
    key: Seq<char>,
)
    requires
        call_ensures(server::stale_definitions, (defined, config_names, persisted_names), r),
    ensures
        (exists|i: int| 0 <= i < r@.len() && (#[trigger] r@[i])@ == key) <==> (exists|i: int|
            0 <= i < defined@.len() && (#[trigger] defined@[i])@ == key) && !(exists|i: int|
            0 <= i < config_names@.len() && (#[trigger] config_names@[i])@ == key) && !(exists|
            i: int,
        | 0 <= i < persisted_names@.len() && (#[trigger] persisted_names@[i])@ == key),
        r@.len() <= defined@.len(),
{
    let all = defined.deep_view();
    let unasked = |k: Seq<char>|
        !config_names.deep_view().contains(k) && !persisted_names.deep_view().contains(k);
    listed(defined, key);
    listed(config_names, key);
    listed(persisted_names, key);
    let left = r.deep_view();
    assert(left == all.filter(unasked));
    assert(left.len() == r@.len());
    all.lemma_filter_len(unasked);
    if left.contains(key) {
        let i = choose|i: int| 0 <= i < left.len() && left[i] == key;
        assert(r@[i]@ == key);
        all.lemma_filter_pred(unasked, i);
        all.lemma_filter_contains_rev(unasked, key);
    }
    if exists|i: int| 0 <= i < r@.len() && (#[trigger] r@[i])@ == key {
        let i = choose|i: int| 0 <= i < r@.len() && (#[trigger] r@[i])@ == key;
        assert(left[i] == key);
        assert(left.contains(key));
    }
    if all.contains(key) && unasked(key) {
        let i = choose|i: int| 0 <= i < all.len() && all[i] == key;
        all.lemma_filter_contains(unasked, i);
    }
}

/// Connections are counted: one that was opened and closed again leaves the
/// count as it was, the last that closes says so, and none is open exactly then.
pub proof fn connections_are_counted(before: ConnectionCount, fresh: ConnectionCount, none: bool)
    requires
        call_ensures(ConnectionCount::new, (), fresh),
        call_ensures(ConnectionCount::drained, (&before,), none),
    ensures
        none <==> before == fresh,
        forall|a: &mut ConnectionCount, b: &mut ConnectionCount, last: bool|
            *a == before && *b == *final(a) && #[trigger] call_ensures(
                ConnectionCount::inc,
                (a,),
                (),
            ) && #[trigger] call_ensures(ConnectionCount::dec, (b,), last) ==> *final(b) == before
                && last == none && *final(a) != fresh,
{
}

/// What is said of a definition that is left out or could not be run names its
/// key and says why.
pub proof fn what_is_left_out_is_named(key: &str, why: &str, run: String, kept: String)
    requires
        call_ensures(server::preload_warning, (key, why), run),
        call_ensures(server::persisted_skipped_text, (key, why), kept),
    ensures
        exists|a: Seq<char>, b: Seq<char>| run@ == #[trigger] (a + key@ + b + why@),
        exists|a: Seq<char>, b: Seq<char>| kept@ == #[trigger] (a + key@ + b + why@),
        run@ != kept@,
{
    reveal_strlit("cache-warden: preload `");
    reveal_strlit("cache-warden: persisted definition `");
    reveal_strlit("` failed: ");
    reveal_strlit("` skipped: ");
    assert("cache-warden: preload `"@[15] == 'r');
    assert("cache-warden: persisted definition `"@[15] == 'e');
    assert(run@[15] == 'r');
    assert(kept@[15] == 'e');
    assert(run@ == "cache-warden: preload `"@ + key@ + "` failed: "@ + why@);
    assert(kept@ == "cache-warden: persisted definition `"@ + key@ + "` skipped: "@ + why@);
}

} // verus!
