//! Full Disk Access: which configurations need it.
//!
//! macOS holds the daemon responsible for the 1Password CLI that it starts, so
//! a configuration under which the daemon can come to run `op` needs Full Disk
//! Access for the daemon.

use vstd::prelude::*;

use crate::path;
use crate::text;

verus! {

/// What a `[kv.*]` entry says about its source. `command_argv` is the argument
/// vector of its command table, where that can be read as one.
#[derive(Debug, Clone, PartialEq, Eq)]
pub struct KvEntryConfig {
    pub source: Option<String>,
    pub command_argv: Option<Vec<String>>,
}

/// The sources that a configuration names.
#[derive(Debug, Clone, PartialEq, Eq)]
pub struct SourcesConfig {
    pub kv: Vec<KvEntryConfig>,
    /// The kinds of the `[authsock.sources.*]` entries.
    pub authsock_source_kinds: Vec<String>,
}

/// The arguments under which the installed program probes for the permission.
pub fn self_check_args() -> (r: &'static [&'static str])
    ensures
        r@.len() == 3,
        r@[0]@ == "internal"@,
        r@[1]@ == "fda-check"@,
        r@[2]@ == "--raw"@,
{
    &["internal", "fda-check", "--raw"]
}

/// The entry's source is of this kind.
pub open spec fn source_is(entry: KvEntryConfig, kind: Seq<char>) -> bool {
    entry.source matches Some(s) && s@ == kind
}

/// The entry is a command whose program is `op`, wherever it is installed.
pub open spec fn runs_op(entry: KvEntryConfig) -> bool {
    source_is(entry, "command"@) && (entry.command_argv matches Some(argv) && argv@.len() > 0
        && path::last_name(argv@[0]@) == Some("op"@))
}

fn source_kind_is(entry: &KvEntryConfig, kind: &str) -> (r: bool)
    ensures
        r == source_is(*entry, kind@),
{
    match &entry.source {
        Some(s) => text::same_text(s.as_str(), kind),
        None => false,
    }
}

/// Whether the entry is a command whose program is `op`, by the base name of
/// the program. What reaches `op` through another program is not seen.
pub fn command_source_runs_op(entry: &KvEntryConfig) -> (r: bool)
    ensures
        r == runs_op(*entry),
{
    if !source_kind_is(entry, "command") {
        return false;
    }
    match &entry.command_argv {
        None => false,
        Some(argv) => {
            if argv.len() == 0 {
                return false;
            }
            match path::file_name(argv[0].as_str()) {
                Some(name) => text::same_text(name.as_str(), "op"),
                None => false,
            }
        },
    }
}

/// Whether the daemon can come to run `op` under this configuration.
pub fn has_op_sources(config: &SourcesConfig) -> (r: bool)
    ensures
        r == ((exists|i: int|
            0 <= i < config.kv@.len() && (source_is(#[trigger] config.kv@[i], "op"@) || runs_op(
                config.kv@[i],
            ))) || config.authsock_source_kinds.deep_view().contains("op"@)),
{
    let kinds = config.authsock_source_kinds.as_slice();
    assert(kinds.deep_view() =~= config.authsock_source_kinds.deep_view());
    if text::list_has(kinds, "op") {
        return true;
    }
    let mut i: usize = 0;
    while i < config.kv.len()
        invariant
            i <= config.kv.len(),
            !config.authsock_source_kinds.deep_view().contains("op"@),
            forall|j: int|
                0 <= j < i ==> !(source_is(#[trigger] config.kv@[j], "op"@) || runs_op(
                    config.kv@[j],
                )),
        decreases config.kv.len() - i,
    {
        if source_kind_is(&config.kv[i], "op") || command_source_runs_op(&config.kv[i]) {
            return true;
        }
        i += 1;
    }
    false
}

} // verus!
