//! The value-free view of the store that `status` and `kv.list` report.

use vstd::prelude::*;

use crate::daemon::claim;
use crate::daemon::get::EntryState;
use crate::daemon::guard;
use crate::daemon::guard::GuardRecord;
use crate::text;
use crate::wire;
use crate::wire::{EntryInfo, FdaStatusWire, OkPayload, Response};

verus! {

/// What the store shows of one key, without its value. Times are in
/// nanoseconds of the store's clock.
#[derive(Debug, Clone, PartialEq, Eq)]
pub struct EntrySnapshot {
    pub name: String,
    pub has_value: bool,
    pub defined: bool,
    /// The state of the stored entry, where there is one.
    pub state: Option<EntryState>,
    /// Whether the entry's own source can run again.
    pub source_regenerable: bool,
    pub pin_deadline_ns: Option<u64>,
    /// The type label of the key's definition.
    pub type_label: Option<String>,
    /// Where the definition's value comes from, as it is shown.
    pub source: Option<String>,
    pub backoff_remaining_ns: Option<u64>,
    pub guard: Option<GuardRecord>,
    /// Zero where the key was never written.
    pub version: u64,
    /// The time that an active claim has left.
    pub claim_remaining_ms: Option<u64>,
}

/// What an [`EntryInfo`] holds.
#[verifier::ext_equal]
pub struct EntryInfoView {
    pub name: Seq<char>,
    pub state: Seq<char>,
    pub regenerable: bool,
    pub defined: bool,
    pub has_value: bool,
    pub pin_remaining_secs: Option<u64>,
    pub value_type: Option<Seq<char>>,
    pub source: Option<Seq<char>>,
    pub backoff_until_secs: Option<u64>,
    pub guard_summary: Option<Seq<Seq<char>>>,
    pub version: Option<u64>,
    pub claim_expires_in_secs: Option<u64>,
    pub locked: bool,
}

impl DeepView for EntryInfo {
    type V = EntryInfoView;

    open spec fn deep_view(&self) -> EntryInfoView {
        EntryInfoView {
            name: self.name@,
            state: self.state@,
            regenerable: self.regenerable,
            defined: self.defined,
            has_value: self.has_value,
            pin_remaining_secs: self.pin_remaining_secs,
            value_type: self.value_type.deep_view(),
            source: self.source.deep_view(),
            backoff_until_secs: self.backoff_until_secs,
            guard_summary: self.guard_summary.deep_view(),
            version: self.version,
            claim_expires_in_secs: self.claim_expires_in_secs,
            locked: self.locked,
        }
    }
}

/// The name of a state.
pub open spec fn state_name(state: EntryState) -> Seq<char> {
    match state {
        EntryState::Active => "active"@,
        EntryState::SoftExpired => "soft_expired"@,
        EntryState::HardExpired => "hard_expired"@,
    }
}

/// The name of a state.
pub fn state_str(state: EntryState) -> (r: &'static str)
    ensures
        r@ == state_name(state),
{
    match state {
        EntryState::Active => "active",
        EntryState::SoftExpired => "soft_expired",
        EntryState::HardExpired => "hard_expired",
    }
}

/// Whole seconds from `now` to `deadline`, none once it has passed.
pub open spec fn secs_until(deadline_ns: u64, now_ns: u64) -> u64 {
    if deadline_ns <= now_ns {
        0
    } else {
        ((deadline_ns - now_ns) / 1_000_000_000) as u64
    }
}

/// What is reported of one key; nothing where it has neither an entry nor a
/// definition.
pub open spec fn entry_view(s: EntrySnapshot, now_ns: u64) -> Option<EntryInfoView> {
    if s.state is None && !s.defined {
        None
    } else {
        Some(
            EntryInfoView {
                name: s.name@,
                state: match s.state {
                    Some(state) => state_name(state),
                    None => "defined"@,
                },
                regenerable: s.defined || s.source_regenerable,
                defined: s.defined,
                has_value: s.has_value,
                pin_remaining_secs: match s.pin_deadline_ns {
                    Some(d) => Some(secs_until(d, now_ns)),
                    None => None,
                },
                value_type: match s.type_label {
                    Some(t) => if t@.len() == 0 {
                        None
                    } else {
                        Some(t@)
                    },
                    None => None,
                },
                source: s.source.deep_view(),
                backoff_until_secs: match s.backoff_remaining_ns {
                    Some(ns) => Some((ns / 1_000_000_000) as u64),
                    None => None,
                },
                guard_summary: match s.guard {
                    Some(g) => Some(guard::summary_labels(g@.constraints)),
                    None => None,
                },
                version: if s.version == 0 {
                    None
                } else {
                    Some(s.version)
                },
                claim_expires_in_secs: match s.claim_remaining_ms {
                    Some(ms) => Some(claim::covering_secs(ms as nat) as u64),
                    None => None,
                },
                locked: false,
            },
        )
    }
}

/// What is reported of a list of keys, in order.
pub open spec fn entry_views(snapshots: Seq<EntrySnapshot>, now_ns: u64) -> Seq<EntryInfoView>
    decreases snapshots.len(),
{
    if snapshots.len() == 0 {
        Seq::empty()
    } else {
        let before = entry_views(snapshots.drop_last(), now_ns);
        match entry_view(snapshots.last(), now_ns) {
            Some(v) => before.push(v),
            None => before,
        }
    }
}

fn entry_info(s: &EntrySnapshot, now_ns: u64) -> (r: Option<EntryInfo>)
    ensures
        r.deep_view() == entry_view(*s, now_ns),
{
    let state = match s.state {
        Some(state) => state_str(state).to_owned(),
        None => if s.defined {
            "defined".to_owned()
        } else {
            return None;
        },
    };
    let pin_remaining_secs: Option<u64> = match s.pin_deadline_ns {
        Some(d) => if d <= now_ns {
            Some(0)
        } else {
            Some((d - now_ns) / 1_000_000_000)
        },
        None => None,
    };
    let value_type = match &s.type_label {
        Some(t) => if t.as_str().is_empty() {
            None
        } else {
            Some(t.clone())
        },
        None => None,
    };
    let source = match &s.source {
        Some(text) => Some(text.clone()),
        None => None,
    };
    let backoff_until_secs: Option<u64> = match s.backoff_remaining_ns {
        Some(ns) => Some(ns / 1_000_000_000),
        None => None,
    };
    let guard_summary = match &s.guard {
        Some(g) => Some(guard::summarize_guard_record(g)),
        None => None,
    };
    let claim_expires_in_secs: Option<u64> = match s.claim_remaining_ms {
        Some(ms) => Some(claim::ms_to_covering_secs(ms)),
        None => None,
    };
    Some(
        EntryInfo {
            name: s.name.clone(),
            state,
            regenerable: s.defined || s.source_regenerable,
            defined: s.defined,
            has_value: s.has_value,
            pin_remaining_secs,
            value_type,
            source,
            backoff_until_secs,
            guard_summary,
            version: if s.version == 0 {
                None
            } else {
                Some(s.version)
            },
            claim_expires_in_secs,
            locked: false,
        },
    )
}

/// The reports on all keys, in the order in which the store lists them.
pub fn collect_entry_infos(snapshots: &[EntrySnapshot], now_ns: u64) -> (r: Vec<EntryInfo>)
    ensures
        r.deep_view() == entry_views(snapshots@, now_ns),
{
    let mut out: Vec<EntryInfo> = Vec::new();
    let mut i: usize = 0;
    proof {
        assert(snapshots@.take(0) =~= Seq::<EntrySnapshot>::empty());
        assert(out.deep_view() =~= Seq::<EntryInfoView>::empty());
    }
    while i < snapshots.len()
        invariant
            i <= snapshots.len(),
            out.deep_view() == entry_views(snapshots@.take(i as int), now_ns),
        decreases snapshots.len() - i,
    {
        let ghost before = out.deep_view();
        proof {
            assert(snapshots@.take(i + 1).drop_last() =~= snapshots@.take(i as int));
            assert(snapshots@.take(i + 1).last() == snapshots@[i as int]);
        }
        if let Some(info) = entry_info(&snapshots[i], now_ns) {
            out.push(info);
            assert(out.deep_view() =~= before.push(info.deep_view()));
        }
        i += 1;
    }
    assert(snapshots@.take(i as int) =~= snapshots@);
    out
}

/// The names of the reported keys.
pub open spec fn entry_names(entries: Seq<EntryInfoView>) -> Seq<Seq<char>> {
    entries.map_values(|e: EntryInfoView| e.name)
}

/// `r` lists the keys that `snapshots` show, each with the report on it.
pub open spec fn is_listing(r: Response, snapshots: Seq<EntrySnapshot>, now_ns: u64) -> bool {
    r matches Response::Success(body) && (body.payload matches OkPayload::List { keys, entries }
        && entries.deep_view() == entry_views(snapshots, now_ns) && keys.deep_view() == entry_names(
        entries.deep_view(),
    ))
}

/// The reply to `kv.list`: the names, and beside them one report for each, in
/// the same order.
pub fn handle_list(snapshots: &[EntrySnapshot], now_ns: u64) -> (r: Response)
    ensures
        is_listing(r, snapshots@, now_ns),
{
    let entries = collect_entry_infos(snapshots, now_ns);
    let mut keys: Vec<String> = Vec::new();
    let ghost names = entry_names(entries.deep_view());
    let mut i: usize = 0;
    while i < entries.len()
        invariant
            i <= entries.len(),
            names == entry_names(entries.deep_view()),
            keys.deep_view() == names.take(i as int),
        decreases entries.len() - i,
    {
        text::push_text(&mut keys, entries[i].name.clone());
        assert(keys.deep_view() =~= names.take(i + 1));
        i += 1;
    }
    assert(names.take(i as int) =~= names);
    Response::list_with_entries(keys, entries)
}

/// The reply to `status`: who the daemon is, and the reports on all keys.
pub fn handle_status(
    snapshots: &[EntrySnapshot],
    now_ns: u64,
    pid: u32,
    version: String,
    socket: String,
    full_disk_access: Option<FdaStatusWire>,
) -> (r: Response)
    ensures
        exists|entries: Vec<EntryInfo>|
            #![trigger entries.deep_view()]
            entries.deep_view() == entry_views(snapshots@, now_ns) && wire::is_ok(
                r,
                (OkPayload::Status {
                    pid,
                    version,
                    socket,
                    entries,
                    full_disk_access,
                    vault: None,
                }),
            ),
{
    let entries = collect_entry_infos(snapshots, now_ns);
    Response::status(pid, version, socket, entries, full_disk_access)
}

/// Nothing is made up: every report stands for a
/// listed key that has an entry or a definition.
pub proof fn reports_stand_for_listed_keys(snapshots: Seq<EntrySnapshot>, now_ns: u64, j: int)
    requires
        0 <= j < entry_views(snapshots, now_ns).len(),
    ensures
        exists|i: int|
            0 <= i < snapshots.len() && entry_view(#[trigger] snapshots[i], now_ns) == Some(
                entry_views(snapshots, now_ns)[j],
            ),
        entry_views(snapshots, now_ns).len() <= snapshots.len(),
    decreases snapshots.len(),
{
    let before = entry_views(snapshots.drop_last(), now_ns);
    lemma_views_bounded(snapshots, now_ns);
    if j < before.len() {
        reports_stand_for_listed_keys(snapshots.drop_last(), now_ns, j);
        let i = choose|i: int|
            0 <= i < snapshots.drop_last().len() && entry_view(
                #[trigger] snapshots.drop_last()[i],
                now_ns,
            ) == Some(before[j]);
        assert(snapshots[i] == snapshots.drop_last()[i]);
    } else {
        assert(entry_view(snapshots[snapshots.len() - 1], now_ns) is Some);
    }
}

proof fn lemma_views_bounded(snapshots: Seq<EntrySnapshot>, now_ns: u64)
    ensures
        entry_views(snapshots, now_ns).len() <= snapshots.len(),
    decreases snapshots.len(),
{
    if snapshots.len() > 0 {
        lemma_views_bounded(snapshots.drop_last(), now_ns);
    }
}

} // verus!
