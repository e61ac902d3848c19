//! Laws of what `status` and `kv list` report.

use vstd::prelude::*;

use crate::daemon::entries;
use crate::daemon::entries::EntrySnapshot;
use crate::daemon::get::EntryState;
use crate::daemon::guard;
use crate::daemon::guard::GuardRecord;
use crate::wire::{EntryInfo, FdaStatusWire, OkPayload, Response};

verus! {

/// Whole seconds of so many nanoseconds: as many as fit.
pub open spec fn fits_secs(secs: u64, ns: int) -> bool {
    secs * 1_000_000_000 <= ns < secs * 1_000_000_000 + 1_000_000_000
}

/// A key is reported where it has an entry or a definition, and by what the
/// store shows of it.
pub proof fn what_is_reported_of_a_key(one: &[EntrySnapshot], now_ns: u64, r: Vec<EntryInfo>)
    requires
        one@.len() == 1,
        call_ensures(entries::collect_entry_infos, (one, now_ns), r),
    ensures
        r@.len() == if one@[0].state is Some || one@[0].defined {
            1nat
        } else {
            0
        },
        r@.len() == 1 ==> {
            let s = one@[0];
            let e = r@[0];
            &&& e.name@ == s.name@
            &&& e.defined == s.defined
            &&& e.has_value == s.has_value
            &&& e.regenerable == (s.defined || s.source_regenerable)
            &&& e.source.deep_view() == s.source.deep_view()
            &&& !e.locked
            &&& e.version is Some <==> s.version > 0
            &&& e.version is Some ==> e.version == Some(s.version)
            &&& e.value_type is Some <==> s.type_label is Some && s.type_label->0@.len() > 0
            &&& e.value_type is Some ==> e.value_type->0@ == s.type_label->0@
        },
{
    one_report(one, now_ns, r);
}

/// The state of a key, by its name; a key that is only defined is called so.
pub proof fn states_are_reported_by_name(one: &[EntrySnapshot], now_ns: u64, r: Vec<EntryInfo>)
    requires
        one@.len() == 1,
        call_ensures(entries::collect_entry_infos, (one, now_ns), r),
        r@.len() == 1,
    ensures
        one@[0].state == Some(EntryState::Active) <==> r@[0].state@ == "active"@,
        one@[0].state == Some(EntryState::SoftExpired) <==> r@[0].state@ == "soft_expired"@,
        one@[0].state == Some(EntryState::HardExpired) <==> r@[0].state@ == "hard_expired"@,
        one@[0].state is None <==> r@[0].state@ == "defined"@,
{
    one_report(one, now_ns, r);
    reveal_strlit("active");
    reveal_strlit("soft_expired");
    reveal_strlit("hard_expired");
    reveal_strlit("defined");
    assert("active"@.len() == 6 && "soft_expired"@.len() == 12 && "hard_expired"@.len() == 12
        && "defined"@.len() == 7);
    assert("soft_expired"@[0] != "hard_expired"@[0]);
}

/// Times are reported in whole seconds: what is left of a pin and of a backoff
/// rounded down, what is left of a claim rounded up.
pub proof fn times_are_reported_in_seconds(one: &[EntrySnapshot], now_ns: u64, r: Vec<EntryInfo>)
    requires
        one@.len() == 1,
        call_ensures(entries::collect_entry_infos, (one, now_ns), r),
        r@.len() == 1,
    ensures
        ({
            let s = one@[0];
            let e = r@[0];
            &&& e.pin_remaining_secs is Some <==> s.pin_deadline_ns is Some
            &&& s.pin_deadline_ns matches Some(d) ==> fits_secs(
                e.pin_remaining_secs->0,
                if d > now_ns {
                    d - now_ns
                } else {
                    0
                },
            )
            &&& e.backoff_until_secs is Some <==> s.backoff_remaining_ns is Some
            &&& s.backoff_remaining_ns matches Some(ns) ==> fits_secs(
                e.backoff_until_secs->0,
                ns as int,
            )
            &&& e.claim_expires_in_secs is Some <==> s.claim_remaining_ms is Some
            &&& s.claim_remaining_ms matches Some(ms) ==> 1000 * e.claim_expires_in_secs->0 >= ms
                && 1000 * e.claim_expires_in_secs->0 < ms + 1000
        }),
{
    one_report(one, now_ns, r);
}

/// A guard is reported by its summary.
pub proof fn guards_are_reported_by_their_summary(
    one: &[EntrySnapshot],
    now_ns: u64,
    r: Vec<EntryInfo>,
    record: &GuardRecord,
    summary: Vec<String>,
)
    requires
        one@.len() == 1,
        call_ensures(entries::collect_entry_infos, (one, now_ns), r),
        r@.len() == 1,
        one@[0].guard matches Some(g) ==> *record == g,
        call_ensures(guard::summarize_guard_record, (record,), summary),
    ensures
        one@[0].guard is Some <==> r@[0].guard_summary is Some,
        one@[0].guard is Some ==> r@[0].guard_summary->0.deep_view() == summary.deep_view(),
{
    one_report(one, now_ns, r);
}

proof fn one_report(one: &[EntrySnapshot], now_ns: u64, r: Vec<EntryInfo>)
    requires
        one@.len() == 1,
        call_ensures(entries::collect_entry_infos, (one, now_ns), r),
    ensures
        r@.len() == if entries::entry_view(one@[0], now_ns) is Some {
            1nat
        } else {
            0
        },
        r@.len() == 1 ==> entries::entry_view(one@[0], now_ns) == Some(r@[0].deep_view()),
{
    let all = r.deep_view();
    assert(one@.drop_last() =~= Seq::<EntrySnapshot>::empty());
    assert(entries::entry_views(one@.drop_last(), now_ns) =~= Seq::empty());
    assert(one@.last() == one@[0]);
    assert(all.len() == r@.len());
    if r@.len() == 1 {
        assert(all[0] == r@[0].deep_view());
    }
}

/// The reports on more keys are the reports on each, in order.
pub proof fn reports_follow_the_keys(
    some: &[EntrySnapshot],
    more: &[EntrySnapshot],
    all: &[EntrySnapshot],
    now_ns: u64,
    a: Vec<EntryInfo>,
    b: Vec<EntryInfo>,
    r: Vec<EntryInfo>,
)
    requires
        all@ == some@ + more@,
        call_ensures(entries::collect_entry_infos, (some, now_ns), a),
        call_ensures(entries::collect_entry_infos, (more, now_ns), b),
        call_ensures(entries::collect_entry_infos, (all, now_ns), r),
    ensures
        r.deep_view() == a.deep_view() + b.deep_view(),
{
    reports_of_both(some@, more@, now_ns);
}

proof fn reports_of_both(some: Seq<EntrySnapshot>, more: Seq<EntrySnapshot>, now_ns: u64)
    ensures
        entries::entry_views(some + more, now_ns) == entries::entry_views(some, now_ns)
            + entries::entry_views(more, now_ns),
    decreases more.len(),
{
    let all = some + more;
    if more.len() == 0 {
        assert(all =~= some);
        assert(entries::entry_views(some, now_ns) + Seq::empty() =~= entries::entry_views(
            some,
            now_ns,
        ));
    } else {
        reports_of_both(some, more.drop_last(), now_ns);
        assert(all.drop_last() =~= some + more.drop_last());
        assert(all.last() == more.last());
        assert(entries::entry_views(all, now_ns) =~= entries::entry_views(some, now_ns)
            + entries::entry_views(more, now_ns));
    }
}

/// `kv list` and `status` give the reports as they are; beside its reports the
/// list gives the keys' names.
pub proof fn lists_give_the_reports(
    snapshots: &[EntrySnapshot],
    now_ns: u64,
    pid: u32,
    version: String,
    socket: String,
    full_disk_access: Option<FdaStatusWire>,
    reports: Vec<EntryInfo>,
    listed: Response,
    status: Response,
)
    requires
        call_ensures(entries::collect_entry_infos, (snapshots, now_ns), reports),
        call_ensures(entries::handle_list, (snapshots, now_ns), listed),
        call_ensures(
            entries::handle_status,
            (snapshots, now_ns, pid, version, socket, full_disk_access),
            status,
        ),
    ensures
        listed matches Response::Success(body) && (body.payload matches OkPayload::List {
            keys,
            entries: e,
        } && e.deep_view() == reports.deep_view() && keys@.len() == reports@.len() && forall|i: int|
            0 <= i < keys@.len() ==> (#[trigger] keys@[i])@ == reports@[i].name@),
        status matches Response::Success(body) && (body.payload matches OkPayload::Status {
            pid: p,
            version: v,
            socket: s,
            entries: e,
            full_disk_access: f,
            ..
        } && p == pid && v@ == version@ && s@ == socket@ && f == full_disk_access && e.deep_view()
            == reports.deep_view()),
{
    if let Response::Success(body) = listed {
        if let OkPayload::List { keys, entries: e } = body.payload {
            assert(keys.deep_view().len() == keys@.len());
            assert(reports.deep_view().len() == reports@.len());
            assert forall|i: int| 0 <= i < keys@.len() implies (#[trigger] keys@[i])@
                == reports@[i].name@ by {
                assert(keys.deep_view()[i] == keys@[i]@);
                assert(reports.deep_view()[i] == reports@[i].deep_view());
            }
        }
    }
}

} // verus!
