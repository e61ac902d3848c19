//! Laws of the vault's states and of the links to agent sockets.

use vstd::prelude::*;

use crate::daemon::upstream_path;
use crate::daemon::vault_state;
use crate::daemon::vault_state::{
    OpenOutcome, UnlockPlan, VaultHeader, VaultInitError, VaultState, VaultUnlockError,
};
use crate::path;
use crate::wire::{VaultStateWire, VaultStatusWire};

verus! {

/// A vault is closed until it is opened, and one that was never made is no
/// fault.
pub proof fn a_vault_starts_closed(
    path: String,
    outcome: OpenOutcome,
    r: Result<VaultState, String>,
)
    requires
        call_ensures(VaultState::open_at, (path, outcome), r),
    ensures
        outcome is Read <==> (r matches Ok(s) && s is Locked),
        outcome is Missing <==> (r matches Ok(s) && s is NotInitialized),
        outcome is Failed <==> r is Err,
{
}

/// Where a vault is, whether it is open, and what is told of it, by its state.
pub proof fn what_is_told_of_a_vault(
    state: VaultState,
    path: &str,
    open: bool,
    header: Option<&VaultHeader>,
    dev: bool,
    told: VaultStatusWire,
)
    requires
        call_ensures(VaultState::path, (&state,), path),
        call_ensures(VaultState::is_unlocked, (&state,), open),
        call_ensures(VaultState::unlocked, (&state,), header),
        call_ensures(VaultState::has_dev_rp_slot, (&state,), dev),
        call_ensures(VaultState::status_wire, (&state,), told),
    ensures
        open <==> state is Unlocked,
        header is Some <==> open,
        told.state == VaultStateWire::Unlocked <==> open,
        told.state == VaultStateWire::NotInitialized <==> state is NotInitialized,
        told.state == VaultStateWire::Locked <==> state is Locked,
        told.vault_id is None <==> state is NotInitialized,
        told.dev_rp_slot == dev,
        state matches VaultState::NotInitialized { path: p } ==> path@ == p@ && !dev,
        state matches VaultState::Locked { vault } ==> path@ == vault.path@ && dev
            == vault.dev_rp_slot && told.slots == Some(vault.slots) && told.dek_generation == Some(
            vault.dek_generation,
        ) && told.vault_id->0@ == vault.vault_id@,
        state matches VaultState::Unlocked { vault } ==> path@ == vault.path@ && dev
            == vault.dev_rp_slot && told.slots == Some(vault.slots) && told.dek_generation == Some(
            vault.dek_generation,
        ) && told.vault_id->0@ == vault.vault_id@,
{
}

/// Making a vault opens it, where there was none; opening one that there is
/// opens it, and closing closes it. What fails changes nothing, and a vault never
/// moves.
pub proof fn how_a_vault_changes(
    before: VaultState,
    made: Result<VaultHeader, String>,
    opened: Result<VaultHeader, String>,
    reread: OpenOutcome,
)
    ensures
        forall|m: &mut VaultState, r: Result<String, VaultInitError>|
            *m == before && #[trigger] call_ensures(VaultState::init, (m, made), r) ==> {
                &&& r is Ok <==> before is NotInitialized && made is Ok
                &&& r is Ok ==> *final(m) is Unlocked && r->Ok_0@ == made->Ok_0.vault_id@
                &&& r is Err ==> *final(m) == before
                &&& r is Err && !(before is NotInitialized) <==> r == Err::<String, VaultInitError>(
                    VaultInitError::AlreadyExists,
                )
            },
        forall|m: &mut VaultState, r: Result<(), VaultUnlockError>|
            *m == before && #[trigger] call_ensures(VaultState::unlock, (m, opened), r) ==> {
                &&& r is Ok <==> before is Unlocked || (before is Locked && opened is Ok)
                &&& r is Ok ==> *final(m) is Unlocked
                &&& r is Err ==> *final(m) == before
                &&& before is Unlocked ==> *final(m) == before
            },
        forall|m: &mut VaultState, r: Result<(), String>|
            *m == before && #[trigger] call_ensures(VaultState::lock, (m, reread), r) ==> {
                &&& r is Ok ==> !(*final(m) is Unlocked)
                &&& r is Err <==> before is Unlocked && reread is Failed
                &&& r is Err ==> *final(m) == before
                &&& before is Unlocked && reread is Read ==> *final(m) is Locked
                &&& before is Unlocked && reread is Missing ==> *final(m) is NotInitialized
                &&& !(before is Unlocked) ==> *final(m) == before
            },
{
}

/// A vault is made where none is, and opened where it is, at its own place.
pub proof fn what_is_done_to_a_vault(
    state: VaultState,
    path: &str,
    init: Result<String, VaultInitError>,
    unlock: UnlockPlan,
)
    requires
        call_ensures(VaultState::path, (&state,), path),
        call_ensures(VaultState::plan_init, (&state,), init),
        call_ensures(VaultState::plan_unlock, (&state,), unlock),
    ensures
        init is Ok <==> state is NotInitialized,
        init matches Ok(p) ==> p@ == path@,
        unlock is AlreadyOpen <==> state is Unlocked,
        unlock is NotInitialized <==> state is NotInitialized,
        unlock matches UnlockPlan::Open { path: p } ==> state is Locked && p@ == path@,
{
}

/// A place that was given is preferred to the profile's.
pub proof fn where_the_vault_is(path: Option<String>, profile: Option<String>, r: Option<String>)
    requires
        call_ensures(vault_state::resolve_path, (path, profile), r),
    ensures
        path is Some ==> r == path,
        path is None ==> r == profile,
{
}

/// A socket is reached under its own path, unless it lies in a Group Container
/// and a link stands for it.
pub proof fn how_a_socket_is_reached(
    configured: &str,
    link: Option<String>,
    before: Seq<char>,
    behind: Seq<char>,
    inside: bool,
    r: String,
)
    requires
        call_ensures(upstream_path::is_group_container_path, (configured,), inside),
        call_ensures(upstream_path::resolve_upstream_path, (configured, link), r),
    ensures
        configured@ == before + "Library/Group Containers/"@ + behind ==> inside,
        inside && link is Some ==> r@ == link->0@,
        !inside || link is None ==> r@ == configured@,
{
    let mark = "Library/Group Containers/"@;
    if configured@ == before + mark + behind {
        let i = before.len() as int;
        assert(configured@.subrange(i, i + mark.len()) =~= mark);
    }
}

/// A character that a link's name may hold, by its code point.
pub open spec fn is_safe(c: char) -> bool {
    let p = c as u32;
    48 <= p <= 57 || 65 <= p <= 90 || 97 <= p <= 122 || p == 45 || p == 95
}

proof fn link_chars(c: char)
    ensures
        upstream_path::is_link_char(c) == is_safe(c),
{
}

/// The name of a link keeps the characters that are safe, puts `_` for the
/// others, and is never empty.
pub proof fn link_names_keep_what_is_safe(name: &str, r: String)
    requires
        name@.len() > 0,
        name@.len() < 5 || name@.skip(name@.len() - 5) != ".sock"@,
        call_ensures(upstream_path::sanitize_component, (name,), r),
    ensures
        r@.len() == name@.len(),
        forall|i: int|
            0 <= i < r@.len() ==> #[trigger] r@[i] == if is_safe(name@[i]) {
                name@[i]
            } else {
                '_'
            },
{
    assert forall|i: int| 0 <= i < r@.len() implies #[trigger] r@[i] == if is_safe(name@[i]) {
        name@[i]
    } else {
        '_'
    } by {
        link_chars(name@[i]);
    }
}

/// A `.sock` at the end makes no difference to the name of a link.
pub proof fn link_names_pass_over_the_ending(name: &str, longer: &str, r: String, s: String)
    requires
        longer@ == name@ + ".sock"@,
        call_ensures(upstream_path::sanitize_component, (name,), r),
        call_ensures(upstream_path::sanitize_component, (longer,), s),
    ensures
        r@ == s@,
        name@.len() == 0 ==> r@ == "agent"@,
{
    reveal_strlit(".sock");
    assert(longer@.skip(longer@.len() - 5) =~= ".sock"@);
    assert(longer@.take(longer@.len() - 5) =~= name@);
}

/// A link stands for a socket as long as it leads to the same place.
pub proof fn links_are_current(
    existing: &Option<String>,
    found: &str,
    target: &str,
    same: bool,
    r: bool,
)
    requires
        *existing matches Some(p) ==> p@ == found@,
        call_ensures(path::same_path, (found, target), same),
        call_ensures(upstream_path::link_is_current, (existing, target), r),
    ensures
        r <==> *existing is Some && same,
{
}

/// Where the links are: under the state directory where one is set, else under
/// the home directory; without either there are none.
pub proof fn where_links_are(state_home: Option<&str>, home: Option<&str>, r: Option<String>)
    requires
        call_ensures(upstream_path::state_upstreams_dir, (state_home, home), r),
    ensures
        r is None <==> state_home is None && home is None,
        state_home matches Some(d) ==> d@.len() > 0 && d@.last() != '/' ==> r->0@ == d@
            + "/cache-warden/upstreams"@,
        state_home is None && home is Some && home->0@.len() > 0 && home->0@.last() != '/'
            ==> r->0@ == home->0@ + "/.local/state/cache-warden/upstreams"@,
{
    reveal_strlit("/");
    reveal_strlit(".local/state");
    reveal_strlit("cache-warden/upstreams");
    reveal_strlit("/cache-warden/upstreams");
    reveal_strlit("/.local/state/cache-warden/upstreams");
    let own = "cache-warden/upstreams"@;
    assert(own.len() == 22 && own[0] == 'c');
    assert(".local/state"@.len() == 12 && ".local/state"@[0] == '.' && ".local/state"@.last()
        == 'e');
    assert("/cache-warden/upstreams"@ =~= "/"@ + own);
    assert("/.local/state/cache-warden/upstreams"@ =~= "/"@ + ".local/state"@ + "/"@ + own);
    if let Some(d) = state_home {
        if d@.len() > 0 && d@.last() != '/' {
            assert(r->0@ =~= d@ + ("/"@ + own));
        }
    } else if let Some(h) = home {
        if h@.len() > 0 && h@.last() != '/' {
            assert(r->0@ =~= h@ + ("/"@ + ".local/state"@ + "/"@ + own));
        }
    }
}

/// Two sockets never share a link, and a link is called after its socket.
pub proof fn every_socket_has_its_link(
    a: &str,
    b: &str,
    home: Option<&str>,
    name: &str,
    stem: String,
    r: String,
    s: String,
)
    requires
        path::last_name(a@) == Some(name@),
        call_ensures(upstream_path::sanitize_component, (name,), stem),
        call_ensures(upstream_path::link_name, (a, home), r),
        call_ensures(upstream_path::link_name, (b, home), s),
    ensures
        r@ == s@ ==> a@ == b@,
        (stem@ + seq!['.']).is_prefix_of(r@),
{
    let h = match home {
        Some(x) => Some(x@),
        None => None,
    };
    if r@ == s@ {
        upstream_path::links_are_not_shared(a@, b@, h);
    }
    assert(r@.take(stem@.len() as int + 1) =~= stem@ + seq!['.']);
}

/// The same vault, at the place `path`.
pub open spec fn tells_the_same(vault: VaultHeader, header: VaultHeader, path: Seq<char>) -> bool {
    &&& vault.path@ == path
    &&& vault.vault_id@ == header.vault_id@
    &&& vault.slots == header.slots
    &&& vault.dek_generation == header.dek_generation
    &&& vault.dev_rp_slot == header.dev_rp_slot
}

/// What is known of a vault is what its file told last, and it never moves.
pub proof fn what_is_known_of_a_vault(
    path: String,
    outcome: OpenOutcome,
    r: VaultState,
    before: VaultState,
    place: &str,
    header: VaultHeader,
)
    requires
        call_ensures(VaultState::open_at, (path, outcome), Ok(r)),
        call_ensures(VaultState::path, (&before,), place),
    ensures
        r matches VaultState::Locked { vault } ==> tells_the_same(
            vault,
            outcome->Read_0,
            path@,
        ),
        r matches VaultState::NotInitialized { path: p } ==> p@ == path@,
        forall|m: &mut VaultState, id: String|
            *m == before && #[trigger] call_ensures(VaultState::init, (m, Ok(header)), Ok(id)) ==> (
            *final(m) matches VaultState::Unlocked { vault } && tells_the_same(
                vault,
                header,
                place@,
            )),
        forall|m: &mut VaultState, done: Result<(), VaultUnlockError>|
            *m == before && before is Locked && done is Ok && #[trigger] call_ensures(
                VaultState::unlock,
                (m, Ok(header)),
                done,
            ) ==> (*final(m) matches VaultState::Unlocked { vault } && tells_the_same(
                vault,
                header,
                place@,
            )),
        forall|m: &mut VaultState, done: Result<(), String>|
            *m == before && before is Unlocked && done is Ok && #[trigger] call_ensures(
                VaultState::lock,
                (m, OpenOutcome::Read(header)),
                done,
            ) ==> (*final(m) matches VaultState::Locked { vault } && tells_the_same(
                vault,
                header,
                place@,
            )),
        forall|m: &mut VaultState, done: Result<(), String>|
            *m == before && before is Unlocked && done is Ok && #[trigger] call_ensures(
                VaultState::lock,
                (m, OpenOutcome::Missing),
                done,
            ) ==> (*final(m) matches VaultState::NotInitialized { path: p } && p@ == place@),
{
}

/// A path lies in a Group Container exactly where it names one.
pub proof fn what_lies_in_a_group_container(path: &str, r: bool)
    requires
        call_ensures(upstream_path::is_group_container_path, (path,), r),
    ensures
        r <==> exists|before: Seq<char>, behind: Seq<char>|
            path@ == #[trigger] (before + "Library/Group Containers/"@ + behind),
{
    let mark = "Library/Group Containers/"@;
    if r {
        let i = choose|i: int|
            0 <= i <= path@.len() - mark.len() && #[trigger] path@.subrange(i, i + mark.len())
                == mark;
        assert(path@ =~= path@.take(i) + path@.subrange(i, i + mark.len()) + path@.skip(
            i + mark.len(),
        ));
    }
    if exists|before: Seq<char>, behind: Seq<char>| path@ == #[trigger] (before + mark + behind) {
        let (before, behind) = choose|before: Seq<char>, behind: Seq<char>|
            path@ == #[trigger] (before + mark + behind);
        let i = before.len() as int;
        assert(path@.subrange(i, i + mark.len()) =~= mark);
    }
}

} // verus!
