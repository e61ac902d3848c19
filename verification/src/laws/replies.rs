//! Laws of replies: what a caller is told, and when it is told that something
//! failed.

use vstd::prelude::*;

use crate::daemon::handler;
use crate::daemon::handler::{DefineOutcome, PinOutcome, ValueMeta};
use crate::laws::names;
use crate::namespace;
use crate::wire::{EntryInfo, ErrorKind, OkBody, OkPayload, Response, ValueMetaWire};

verus! {

/// A failure carries its kind and its message, and nothing else.
pub proof fn failures_say_what_failed(kind: ErrorKind, message: &str, r: Response)
    requires
        call_ensures(Response::error, (kind, message), r),
    ensures
        r matches Response::Failure(body) && body.error.kind == kind && body.error.message@
            == message@ && body.error.current_version is None
            && body.error.claim_expires_in_secs is None,
{
}

/// A version that does not agree is answered by the version that there is.
pub proof fn a_version_mismatch_tells_the_version(current: u64, r: Response)
    requires
        call_ensures(Response::cas_mismatch, (current,), r),
    ensures
        r matches Response::Failure(body) && body.error.kind == ErrorKind::CasMismatch
            && body.error.current_version == Some(current) && body.error.claim_expires_in_secs
            is None,
{
}

/// A key that is held is answered by the time it is still held for.
pub proof fn a_held_key_tells_the_time(secs: u64, r: Response)
    requires
        call_ensures(Response::already_claimed, (secs,), r),
    ensures
        r matches Response::Failure(body) && body.error.kind == ErrorKind::AlreadyClaimed
            && body.error.claim_expires_in_secs == Some(secs) && body.error.current_version is None,
{
}

/// A value is carried as it was handed over; a dry run carries none.
pub proof fn values_are_carried_whole(
    value_b64: String,
    state: &str,
    r: Response,
    dry: Response,
)
    requires
        call_ensures(Response::get, (value_b64,), r),
        call_ensures(Response::get_verified, (state,), dry),
    ensures
        r matches Response::Success(body) && (body.payload matches OkPayload::Get { value_b64: v }
            && v@ == value_b64@),
        dry matches Response::Success(body) && (body.payload matches OkPayload::GetVerified {
            verified,
            state: s,
        } && verified && s@ == state@),
{
}

/// An acknowledgement of a write tells the version and the guard that are in
/// force.
pub proof fn writes_are_acknowledged(guard_applied: Vec<String>, version: u64, r: Response)
    requires
        call_ensures(Response::set_ack_with_guard_and_version, (guard_applied, version), r),
    ensures
        r matches Response::Success(body) && (body.payload matches OkPayload::Stored {
            guard_applied: g,
            version: v,
        } && g.deep_view() == guard_applied.deep_view() && v == Some(version)),
{
}

/// A deletion says whether something was deleted.
pub proof fn deletions_are_told(removed: Option<bool>, r: Response)
    requires
        call_ensures(handler::deleted_reply, (removed,), r),
    ensures
        r matches Response::Success(body) && (body.payload matches OkPayload::Deleted { deleted }
            && (deleted <==> removed == Some(true))),
{
}

/// A pin is told by the time it lasts; what kept it away is told by its kind.
pub proof fn pins_are_told(outcome: PinOutcome, duration_secs: u64, r: Response)
    requires
        call_ensures(handler::pinned_reply, (outcome, duration_secs), r),
    ensures
        outcome is Pinned <==> r is Success,
        r matches Response::Success(body) ==> (body.payload matches OkPayload::Pinned {
            pin_remaining_secs,
        } && pin_remaining_secs == duration_secs),
        r matches Response::Failure(body) ==> {
            let kind = body.error.kind;
            &&& outcome is NotFound <==> kind == ErrorKind::NotFound
            &&& outcome is HardExpired <==> kind == ErrorKind::HardExpired
            &&& outcome is AuthFailed <==> kind == ErrorKind::AuthFailed
            &&& outcome is CapMismatch <==> kind == ErrorKind::Internal
            &&& outcome matches PinOutcome::AuthFailed(e) ==> body.error.message@ == e@
        },
{
}

/// A key without an entry cannot be unpinned, and one that has it is.
pub proof fn unpins_are_told(found: Option<bool>, r: Response)
    requires
        call_ensures(handler::unpinned_reply, (found,), r),
    ensures
        found == Some(true) <==> r is Success,
        found == Some(true) ==> (r matches Response::Success(body) && (body.payload matches
            OkPayload::Unpinned { unpinned } && unpinned)),
        r matches Response::Failure(body) ==> (found == Some(false) <==> body.error.kind
            == ErrorKind::NotFound) && (found is None <==> body.error.kind == ErrorKind::Internal),
{
}

/// A definition that the store took is acknowledged, and no other.
pub proof fn definitions_are_told(outcome: DefineOutcome, r: Response)
    requires
        call_ensures(handler::defined_reply, (outcome,), r),
    ensures
        outcome is Defined <==> r is Success,
        r matches Response::Success(body) ==> body.payload is Defined,
        r matches Response::Failure(body) ==> body.error.kind == ErrorKind::BadRequest && (outcome
            matches DefineOutcome::InvalidKey(e) ==> body.error.message@ == e@),
{
}

/// A key of the protocol: a name, one `/` and a name.
pub open spec fn is_key(key: Seq<char>) -> bool {
    exists|ns: Seq<char>, name: Seq<char>| #[trigger]
        made_of(key, ns, name) && names::is_name(ns) && names::is_name(name)
}

/// `key` is `ns`, one `/` and `name`.
pub open spec fn made_of(key: Seq<char>, ns: Seq<char>, name: Seq<char>) -> bool {
    key == ns + seq!['/'] + name
}

/// The key is one of the daemon's own.
pub open spec fn is_own(key: Seq<char>) -> bool {
    ("authsock"@ + seq!['/']).is_prefix_of(key)
}

pub(crate) proof fn keys_are_protocol_keys(key: Seq<char>)
    ensures
        handler::is_protocol_key(key) == is_key(key),
        handler::in_reserved_namespace(key) == is_own(key),
{
    reveal_strlit("/");
    assert("/"@ =~= seq!['/']);
    if handler::is_protocol_key(key) {
        let (ns, name) = choose|ns: Seq<char>, name: Seq<char>|
            namespace::is_identifier(ns) && namespace::is_identifier(name) && key
                == #[trigger] namespace::composed(ns, name);
        names::names_are_identifiers(ns);
        names::names_are_identifiers(name);
        assert(made_of(key, ns, name));
    }
    if is_key(key) {
        let (ns, name) = choose|ns: Seq<char>, name: Seq<char>| #[trigger]
            made_of(key, ns, name) && names::is_name(ns) && names::is_name(name);
        names::names_are_identifiers(ns);
        names::names_are_identifiers(name);
        assert(key == namespace::composed(ns, name));
    }
    let own = "authsock"@ + seq!['/'];
    if handler::in_reserved_namespace(key) {
        let rest = choose|rest: Seq<char>| key == #[trigger] namespace::composed("authsock"@, rest);
        assert(key.take(own.len() as int) =~= own);
    }
    if is_own(key) {
        let rest = key.skip(own.len() as int);
        assert(key =~= namespace::composed("authsock"@, rest));
    }
}

/// A key is taken exactly where it is a name, one `/` and a name.
pub proof fn keys_have_two_names(key: &str, r: Result<(), Response>)
    requires
        call_ensures(handler::validate_protocol_key, (key,), r),
    ensures
        r is Ok <==> is_key(key@),
        r matches Err(resp) ==> (resp matches Response::Failure(body) && body.error.kind
            == ErrorKind::BadRequest),
{
    keys_are_protocol_keys(key@);
}

/// What stands under `authsock/` is the daemon's own: nobody reads it, and
/// nobody writes a key of it.
pub proof fn the_daemons_own_keys(
    key: &str,
    read: Result<(), Response>,
    write: Result<(), Response>,
)
    requires
        call_ensures(handler::reject_reserved_namespace_read, (key,), read),
        call_ensures(handler::reject_reserved_namespace_write, (key,), write),
    ensures
        read is Err <==> is_own(key@),
        is_key(key@) ==> (write is Err <==> is_own(key@)),
        read matches Err(resp) ==> resp is Failure,
        write matches Err(resp) ==> resp is Failure,
{
    keys_are_protocol_keys(key@);
}

/// A definition is let through to the store exactly where its key may be
/// written, its source is sound and its times to live go together; the first
/// fault is told.
pub proof fn which_definitions_are_let_through(
    key: &str,
    source: Result<(), String>,
    ttl: Result<(), String>,
    r: Result<(), Response>,
)
    requires
        call_ensures(handler::admit_define, (key, source, ttl), r),
    ensures
        r is Ok <==> is_key(key@) && !is_own(key@) && source is Ok && ttl is Ok,
        r matches Err(resp) ==> (resp matches Response::Failure(body) && body.error.kind
            == ErrorKind::BadRequest && (is_key(key@) && !is_own(key@) ==> body.error.message@ == (
        match source {
            Err(e) => e@,
            Ok(()) => ttl->Err_0@,
        }))),
{
    keys_are_protocol_keys(key@);
}

/// The store keeps the type and the parameters of a value as they came; only
/// parameters without a type are kept under an empty one.
pub proof fn types_are_kept(meta: ValueMetaWire, r: ValueMeta)
    requires
        call_ensures(handler::meta_from_wire, (meta,), r),
    ensures
        r.params@.len() == meta.params@.len(),
        forall|i: int|
            0 <= i < r.params@.len() ==> (#[trigger] r.params@[i]).0@ == meta.params@[i].0@
                && r.params@[i].1@ == meta.params@[i].1@,
        meta.type_label is Some || meta.params@.len() == 0 ==> r.type_label.deep_view()
            == meta.type_label.deep_view(),
        meta.type_label is None && meta.params@.len() > 0 ==> (r.type_label matches Some(t) && t@.len()
            == 0),
{
    let (x, y) = (r@.params, meta@.params);
    assert(x == y);
    assert(x.len() == r.params@.len() && y.len() == meta.params@.len());
    assert forall|i: int| 0 <= i < r.params@.len() implies (#[trigger] r.params@[i]).0@
        == meta.params@[i].0@ && r.params@[i].1@ == meta.params@[i].1@ by {
        assert(x[i] == (r.params@[i].0@, r.params@[i].1@));
        assert(y[i] == (meta.params@[i].0@, meta.params@[i].1@));
    }
}

/// Each acknowledgement says what it was made to say.
pub proof fn acknowledgements_say_what_they_carry(
    flag: bool,
    number: u64,
    version: u64,
    token: String,
    keys: Vec<String>,
    entries: Vec<EntryInfo>,
    deleted: Response,
    unpinned: Response,
    pinned: Response,
    claimed: Response,
    list: Response,
    ok: bool,
)
    requires
        call_ensures(Response::deleted, (flag,), deleted),
        call_ensures(Response::unpinned, (flag,), unpinned),
        call_ensures(Response::pinned, (number,), pinned),
        call_ensures(Response::claimed_ack, (version, token, number), claimed),
        call_ensures(Response::list_with_entries, (keys, entries), list),
        call_ensures(Response::is_ok, (&deleted,), ok),
    ensures
        deleted == Response::Success(OkBody { payload: OkPayload::Deleted { deleted: flag } }),
        unpinned == Response::Success(OkBody { payload: OkPayload::Unpinned { unpinned: flag } }),
        pinned == Response::Success(
            OkBody { payload: OkPayload::Pinned { pin_remaining_secs: number } },
        ),
        claimed == Response::Success(
            OkBody {
                payload: OkPayload::Claimed {
                    version,
                    claim_token: token,
                    claim_expires_in_secs: number,
                },
            },
        ),
        list == Response::Success(OkBody { payload: OkPayload::List { keys, entries } }),
        ok,
{
}

} // verus!
