//! Laws of access guards and of the processes that a key is restricted to.

use vstd::prelude::*;

use crate::daemon::guard;
use crate::daemon::guard::{
    DeclaredAncestor, GetterAuditToken, GetterProcess, GuardConstraint, GuardRecord, PinnedProcess,
    ProcessInfo, ResolvedKvPolicy,
};
use crate::path;
use crate::wire::{ErrorKind, GuardConstraintWire, Response};

verus! {

/// The executable of the process is known and has this base name.
pub open spec fn goes_by(info: ProcessInfo, name: Seq<char>) -> bool {
    info.path matches Some(p) && path::last_name(p@) == Some(name)
}

/// The base name of the process is one of `names`.
pub open spec fn goes_by_one_of(info: ProcessInfo, names: Seq<String>) -> bool {
    exists|i: int| 0 <= i < names.len() && goes_by(info, (#[trigger] names[i])@)
}

/// The process is the one that a setter calls `name`: an absolute path names
/// the executable, any other text its base name.
pub open spec fn is_called(info: ProcessInfo, name: Seq<char>) -> bool {
    if name.len() > 0 && name[0] == '/' {
        info.path matches Some(p) && path::parts(p@) == path::parts(name)
    } else {
        goes_by(info, name)
    }
}

/// What is pinned is this very process.
pub open spec fn is_pin_of(pinned: PinnedProcess, g: GetterProcess) -> bool {
    &&& pinned.pid == g.info.pid
    &&& pinned.start_time == g.info.start_time
    &&& pinned.unique_id == g.unique_id
    &&& g.info.path matches Some(p) && pinned.path@ == p@
    &&& goes_by(g.info, pinned.name@)
}

proof fn shells_go_by_one_of(g: GetterProcess, shells: Vec<String>)
    ensures
        guard::is_shell(g, shells.deep_view()) == goes_by_one_of(g.info, shells@),
{
    let names = shells.deep_view();
    if guard::is_shell(g, names) {
        let n = guard::process_name(g.info)->0;
        let i = choose|i: int| 0 <= i < names.len() && names[i] == n;
        assert(shells@[i]@ == n);
    }
    if goes_by_one_of(g.info, shells@) {
        let i = choose|i: int| 0 <= i < shells@.len() && goes_by(g.info, (#[trigger] shells@[i])@);
        assert(names[i] == shells@[i]@);
        assert(names.contains(shells@[i]@));
    }
}

proof fn search_finds_the_first(
    chain: Seq<GetterProcess>,
    fits: spec_fn(GetterProcess) -> bool,
) -> (k: int)
    ensures
        match guard::first_fitting(chain, fits) {
            Some(g) => 0 <= k < chain.len() && chain[k] == g && fits(g) && forall|j: int|
                0 <= j < k ==> !fits(#[trigger] chain[j]),
            None => forall|j: int| 0 <= j < chain.len() ==> !fits(#[trigger] chain[j]),
        },
    decreases chain.len(),
{
    if chain.len() == 0 || fits(chain[0]) {
        0
    } else {
        let k = search_finds_the_first(chain.skip(1), fits);
        assert forall|j: int|
            1 <= j < chain.len() && (guard::first_fitting(chain, fits) is None || j < k
                + 1) implies !fits(#[trigger] chain[j]) by {
            assert(chain.skip(1)[j - 1] == chain[j]);
        }
        k + 1
    }
}

/// A value that is to be read from the same shell is pinned to the shell nearest
/// to the setter: going up from the requester, to the first process whose base
/// name is the name of a shell. The guard is shown under that name.
pub proof fn the_nearest_shell_is_pinned(
    declared: &[GuardConstraintWire],
    token: Option<GetterAuditToken>,
    chain: &[GetterProcess],
    policy: &ResolvedKvPolicy,
    record: GuardRecord,
    i: int,
)
    requires
        call_ensures(
            guard::plan_guard_record,
            (declared, token, Some(chain), policy),
            Ok(Some(record)),
        ),
        0 <= i < declared@.len(),
        declared@[i] is SameShell,
    ensures
        record.constraints@.len() == declared@.len(),
        record.constraints@[i] matches GuardConstraint::SameAncestor { declared: d, pinned } && (d
            matches DeclaredAncestor::SameShell { shell_name } && shell_name@ == pinned.name@
            && exists|k: int|
            0 <= k < chain@.len() && is_pin_of(pinned, #[trigger] chain@[k]) && goes_by_one_of(
                chain@[k].info,
                policy.shell_names@,
            ) && (forall|j: int|
                0 <= j < k ==> !goes_by_one_of(
                    (#[trigger] chain@[j]).info,
                    policy.shell_names@,
                ))),
{
    let shells = policy.shell_names.deep_view();
    let fits = |g: GetterProcess| guard::is_shell(g, shells);
    guard::record_keeps_every_declaration(
        declared@,
        token,
        chain@,
        policy.default_require_same_user,
        shells,
    );
    assert(guard::planned_constraint(declared@[i], chain@, shells) is Ok);
    let k = search_finds_the_first(chain@, fits);
    assert(record.constraints.deep_view()[i] == record.constraints@[i].deep_view());
    shells_go_by_one_of(chain@[k], policy.shell_names);
    assert forall|j: int| 0 <= j < k implies !goes_by_one_of(
        (#[trigger] chain@[j]).info,
        policy.shell_names@,
    ) by {
        shells_go_by_one_of(chain@[j], policy.shell_names);
        assert(!fits(chain@[j]));
    }
    match record.constraints@[i] {
        GuardConstraint::SameAncestor { declared: d, pinned } => {
            assert(pinned@ == guard::pinned_view(chain@[k]));
            assert(is_pin_of(pinned, chain@[k]));
        },
        _ => {},
    }
}

/// A value that is to be read from under a named ancestor is pinned to the
/// nearest process that the name calls, and is shown under the name as it was
/// given.
pub proof fn the_nearest_ancestor_is_pinned(
    declared: &[GuardConstraintWire],
    token: Option<GetterAuditToken>,
    chain: &[GetterProcess],
    policy: &ResolvedKvPolicy,
    record: GuardRecord,
    i: int,
)
    requires
        call_ensures(
            guard::plan_guard_record,
            (declared, token, Some(chain), policy),
            Ok(Some(record)),
        ),
        0 <= i < declared@.len(),
        declared@[i] is SameAncestor,
    ensures
        record.constraints@.len() == declared@.len(),
        record.constraints@[i] matches GuardConstraint::SameAncestor { declared: d, pinned } && (d
            matches DeclaredAncestor::Named { name } && name@ == declared@[i]->SameAncestor_name@
            && exists|k: int|
            0 <= k < chain@.len() && pinned.pid == (#[trigger] chain@[k]).info.pid
                && pinned.start_time == chain@[k].info.start_time && pinned.unique_id
                == chain@[k].unique_id && (chain@[k].info.path matches Some(p) && pinned.path@
                == p@ && match path::last_name(p@) {
                Some(n) => pinned.name@ == n,
                None => pinned.name@.len() == 0,
            }) && is_called(chain@[k].info, declared@[i]->SameAncestor_name@) && (forall|
                j: int,
            |
                0 <= j < k ==> !is_called(
                    (#[trigger] chain@[j]).info,
                    declared@[i]->SameAncestor_name@,
                ))),
{
    let shells = policy.shell_names.deep_view();
    let name = declared@[i]->SameAncestor_name@;
    let fits = |g: GetterProcess| guard::is_target(g, name);
    guard::record_keeps_every_declaration(
        declared@,
        token,
        chain@,
        policy.default_require_same_user,
        shells,
    );
    assert(guard::planned_constraint(declared@[i], chain@, shells) is Ok);
    let k = search_finds_the_first(chain@, fits);
    assert(record.constraints.deep_view()[i] == record.constraints@[i].deep_view());
    assert forall|j: int| 0 <= j < k implies !is_called((#[trigger] chain@[j]).info, name) by {
        assert(!fits(chain@[j]));
    }
    match record.constraints@[i] {
        GuardConstraint::SameAncestor { declared: d, pinned } => {
            assert(pinned@ == guard::pinned_view(chain@[k]));
            assert(is_called(chain@[k].info, name));
        },
        _ => {},
    }
}

/// The other declarations are recorded as they are, under the user ids of the
/// setter: nothing is left out and nothing is added.
pub proof fn records_hold_what_was_declared(
    declared: &[GuardConstraintWire],
    token: GetterAuditToken,
    chain: Option<&[GetterProcess]>,
    policy: &ResolvedKvPolicy,
    record: GuardRecord,
)
    requires
        call_ensures(
            guard::plan_guard_record,
            (declared, Some(token), chain, policy),
            Ok(Some(record)),
        ),
    ensures
        record.setter.euid == token.euid,
        record.setter.ruid == token.ruid,
        declared@.len() == 0 ==> policy.default_require_same_user && record.constraints@.len() == 1
            && record.constraints@[0] is SameUser,
        declared@.len() > 0 ==> record.constraints@.len() == declared@.len(),
        forall|i: int|
            0 <= i < declared@.len() ==> match #[trigger] declared@[i] {
                GuardConstraintWire::SameUser => record.constraints@[i] is SameUser,
                GuardConstraintWire::Command { name } => record.constraints@[i] matches
                    GuardConstraint::Command { name: n } && n@ == name@,
                GuardConstraintWire::SameShell => record.constraints@[i] matches
                    GuardConstraint::SameAncestor { declared: d, .. } && d is SameShell,
                GuardConstraintWire::SameAncestor { .. } => record.constraints@[i] matches
                    GuardConstraint::SameAncestor { declared: d, .. } && d is Named,
            },
{
    let shells = policy.shell_names.deep_view();
    let known = guard::known_chain(chain);
    let all = record.constraints.deep_view();
    if declared@.len() > 0 {
        guard::record_keeps_every_declaration(
            declared@,
            Some(token),
            known,
            policy.default_require_same_user,
            shells,
        );
        assert forall|i: int| 0 <= i < declared@.len() implies match #[trigger] declared@[i] {
            GuardConstraintWire::SameUser => record.constraints@[i] is SameUser,
            GuardConstraintWire::Command { name } => record.constraints@[i] matches
                GuardConstraint::Command { name: n } && n@ == name@,
            GuardConstraintWire::SameShell => record.constraints@[i] matches
                GuardConstraint::SameAncestor { declared: d, .. } && d is SameShell,
            GuardConstraintWire::SameAncestor { .. } => record.constraints@[i] matches
                GuardConstraint::SameAncestor { declared: d, .. } && d is Named,
        } by {
            assert(guard::planned_constraint(declared@[i], known, shells) is Ok);
            assert(all[i] == record.constraints@[i].deep_view());
        }
    } else {
        let wires = seq![GuardConstraintWire::SameUser];
        assert(wires.drop_last() =~= Seq::<GuardConstraintWire>::empty());
        assert(guard::planned_constraints(wires.drop_last(), known, shells) == Ok::<
            Seq<guard::ConstraintView>,
            Seq<char>,
        >(Seq::empty()));
        assert(all == Seq::<guard::ConstraintView>::empty().push(guard::ConstraintView::SameUser));
        assert(all[0] == record.constraints@[0].deep_view());
    }
}

/// A value is left unguarded only where nothing was declared and the policy asks
/// for nothing.
pub proof fn unguarded_values_were_not_to_be_guarded(
    declared: &[GuardConstraintWire],
    token: Option<GetterAuditToken>,
    chain: Option<&[GetterProcess]>,
    policy: &ResolvedKvPolicy,
    r: Result<Option<GuardRecord>, Response>,
)
    requires
        call_ensures(guard::plan_guard_record, (declared, token, chain, policy), r),
    ensures
        r matches Ok(None) <==> declared@.len() == 0 && !policy.default_require_same_user,
        (declared@.len() > 0 || policy.default_require_same_user) && token is None ==> r is Err,
        token is Some && (forall|i: int|
            0 <= i < declared@.len() ==> (#[trigger] declared@[i]) is SameUser || declared@[i]
                is Command) ==> r is Ok,
{
    let shells = policy.shell_names.deep_view();
    let known = guard::known_chain(chain);
    if token is Some && (forall|i: int|
        0 <= i < declared@.len() ==> (#[trigger] declared@[i]) is SameUser || declared@[i]
            is Command) {
        plain_declarations_are_met(declared@, known, shells);
        plain_declarations_are_met(seq![GuardConstraintWire::SameUser], known, shells);
    }
}

proof fn plain_declarations_are_met(
    wires: Seq<GuardConstraintWire>,
    chain: Seq<GetterProcess>,
    shells: Seq<Seq<char>>,
)
    requires
        forall|i: int|
            0 <= i < wires.len() ==> (#[trigger] wires[i]) is SameUser || wires[i] is Command,
    ensures
        guard::planned_constraints(wires, chain, shells) is Ok,
    decreases wires.len(),
{
    if wires.len() > 0 {
        assert(wires[wires.len() - 1] == wires.last());
        assert forall|i: int| 0 <= i < wires.drop_last().len() implies (
        #[trigger] wires.drop_last()[i]) is SameUser || wires.drop_last()[i] is Command by {
            assert(wires[i] == wires.drop_last()[i]);
        }
        plain_declarations_are_met(wires.drop_last(), chain, shells);
    }
}

/// A declaration that is to pin a process fails only where no process of the
/// setter's ancestry can be pinned.
pub proof fn a_shell_that_is_there_is_found(
    declared: &[GuardConstraintWire],
    token: GetterAuditToken,
    chain: &[GetterProcess],
    policy: &ResolvedKvPolicy,
    r: Result<Option<GuardRecord>, Response>,
)
    requires
        declared@.len() == 1,
        call_ensures(guard::plan_guard_record, (declared, Some(token), Some(chain), policy), r),
    ensures
        declared@[0] is SameShell ==> (r is Ok <==> exists|k: int|
            0 <= k < chain@.len() && goes_by_one_of(
                (#[trigger] chain@[k]).info,
                policy.shell_names@,
            )),
        declared@[0] is SameAncestor ==> (r is Ok <==> exists|k: int|
            0 <= k < chain@.len() && is_called(
                (#[trigger] chain@[k]).info,
                declared@[0]->SameAncestor_name@,
            )),
        r matches Err(resp) ==> (resp matches Response::Failure(body) && body.error.kind
            == ErrorKind::BadRequest),
{
    let shells = policy.shell_names.deep_view();
    assert(declared@.drop_last() =~= Seq::<GuardConstraintWire>::empty());
    assert(guard::planned_constraints(declared@.drop_last(), chain@, shells) is Ok);
    assert(declared@.last() == declared@[0]);
    if declared@[0] is SameShell {
        let fits = |g: GetterProcess| guard::is_shell(g, shells);
        let k = search_finds_the_first(chain@, fits);
        if r is Ok {
            shells_go_by_one_of(chain@[k], policy.shell_names);
        } else {
            assert forall|j: int| 0 <= j < chain@.len() implies !goes_by_one_of(
                (#[trigger] chain@[j]).info,
                policy.shell_names@,
            ) by {
                shells_go_by_one_of(chain@[j], policy.shell_names);
                assert(!fits(chain@[j]));
            }
        }
    }
    if declared@[0] is SameAncestor {
        let name = declared@[0]->SameAncestor_name@;
        let fits = |g: GetterProcess| guard::is_target(g, name);
        let k = search_finds_the_first(chain@, fits);
        if r is Ok {
            assert(is_called(chain@[k].info, name));
        } else {
            assert forall|j: int| 0 <= j < chain@.len() implies !is_called(
                (#[trigger] chain@[j]).info,
                name,
            ) by {
                assert(!fits(chain@[j]));
            }
        }
    }
}

/// What a constraint is called and how it is shown.
pub proof fn constraints_by_name(c: &GuardConstraint, r: &'static str)
    requires
        call_ensures(guard::constraint_kind_label, (c,), r),
    ensures
        *c is SameUser <==> r@ == "same-user"@,
        (*c matches GuardConstraint::SameAncestor { declared, .. } && declared is SameShell) <==> r@
            == "same-shell"@,
        (*c matches GuardConstraint::SameAncestor { declared, .. } && declared is Named) <==> r@
            == "same-ancestor"@,
        *c is Command <==> r@ == "command"@,
{
    reveal_strlit("same-user");
    reveal_strlit("same-shell");
    reveal_strlit("same-ancestor");
    reveal_strlit("command");
    assert("same-user"@.len() == 9 && "same-shell"@.len() == 10 && "same-ancestor"@.len() == 13
        && "command"@.len() == 7);
}

/// A record that declares one constraint is shown by the kind of the constraint
/// and by what it was declared with; one that anybody can meet by taking a name
/// is marked.
pub proof fn constraints_are_shown(record: &GuardRecord, r: Vec<String>)
    requires
        call_ensures(guard::summarize_guard_record, (record,), r),
        record.constraints@.len() == 1,
    ensures
        r@.len() == 1,
        match record.constraints@[0] {
            GuardConstraint::SameUser => r@[0]@ == "same-user"@,
            GuardConstraint::SameAncestor { declared, .. } => match declared {
                DeclaredAncestor::SameShell { shell_name } => r@[0]@ == "same-shell ("@
                    + shell_name@ + ")"@,
                DeclaredAncestor::Named { name } => r@[0]@ == "same-ancestor ("@ + name@ + ")"@,
            },
            GuardConstraint::Command { name } => r@[0]@ == "command ("@ + name@ + ") (weak)"@,
        },
{
    let all = record@.constraints;
    let c = all[0];
    assert(all =~= Seq::<guard::ConstraintView>::empty().push(c));
    let none = Seq::<guard::ConstraintView>::empty();
    let strong = |c: guard::ConstraintView| guard::is_weak(c) == false;
    let weak = |c: guard::ConstraintView| guard::is_weak(c) == true;
    none.lemma_filter_push(c, strong);
    none.lemma_filter_push(c, weak);
    reveal(Seq::filter);
    assert(none.filter(strong) =~= none && none.filter(weak) =~= none);
    assert(r.deep_view() =~= seq![guard::display_label(c)]);
    assert(r.deep_view()[0] == r@[0]@);
    assert(c == record.constraints@[0].deep_view());
}

/// A key that is restricted to some processes is read by a requester exactly
/// where one process of its ancestry, whichever it is, has one of their names;
/// an unknown requester does not read it.
pub proof fn any_process_of_the_ancestry_lets_in(
    chain: &[ProcessInfo],
    allowed: &[String],
    r: bool,
    unknown: bool,
)
    requires
        call_ensures(guard::chain_gate_passes, (Some(chain), allowed), r),
        call_ensures(guard::chain_gate_passes, (None::<&[ProcessInfo]>, allowed), unknown),
    ensures
        r <==> exists|i: int, a: int|
            0 <= i < chain@.len() && 0 <= a < allowed@.len() && goes_by(
                #[trigger] chain@[i],
                (#[trigger] allowed@[a])@,
            ),
        !unknown,
{
    let names = allowed.deep_view();
    if r {
        let i = choose|i: int|
            0 <= i < chain@.len() && guard::allowed_process(#[trigger] chain@[i], names);
        let n = guard::process_name(chain@[i])->0;
        let a = choose|a: int| 0 <= a < names.len() && names[a] == n;
        assert(allowed@[a]@ == n);
        assert(goes_by(chain@[i], allowed@[a]@));
    }
    if exists|i: int, a: int|
        0 <= i < chain@.len() && 0 <= a < allowed@.len() && goes_by(
            #[trigger] chain@[i],
            (#[trigger] allowed@[a])@,
        ) {
        let (i, a) = choose|i: int, a: int|
            0 <= i < chain@.len() && 0 <= a < allowed@.len() && goes_by(
                #[trigger] chain@[i],
                (#[trigger] allowed@[a])@,
            );
        assert(names[a] == allowed@[a]@);
        assert(guard::allowed_process(chain@[i], names));
    }
}

/// More processes around an ancestry that is let in, or more names that are
/// allowed, let it in all the same.
pub proof fn a_longer_ancestry_is_let_in(
    before: Seq<ProcessInfo>,
    chain: &[ProcessInfo],
    behind: Seq<ProcessInfo>,
    longer: &[ProcessInfo],
    allowed: &[String],
    more: &[String],
    r: bool,
    s: bool,
)
    requires
        longer@ == before + chain@ + behind,
        forall|a: int| 0 <= a < allowed@.len() ==> more@.contains(#[trigger] allowed@[a]),
        call_ensures(guard::chain_gate_passes, (Some(chain), allowed), r),
        call_ensures(guard::chain_gate_passes, (Some(longer), more), s),
    ensures
        r ==> s,
{
    if r {
        let names = allowed.deep_view();
        let i = choose|i: int|
            0 <= i < chain@.len() && guard::allowed_process(#[trigger] chain@[i], names);
        let n = guard::process_name(chain@[i])->0;
        let a = choose|a: int| 0 <= a < names.len() && names[a] == n;
        assert(more@.contains(allowed@[a]));
        let b = choose|b: int| 0 <= b < more@.len() && more@[b] == allowed@[a];
        assert(more.deep_view()[b] == n);
        assert(longer@[before.len() + i] == chain@[i]);
        assert(guard::allowed_process(longer@[before.len() + i], more.deep_view()));
    }
}

/// A process goes by the base name of its executable, where that is known.
pub proof fn processes_by_name(info: &ProcessInfo, file: &str, name: Option<String>, r: Option<String>)
    requires
        info.path matches Some(p) ==> p@ == file@,
        call_ensures(path::file_name, (file,), name),
        call_ensures(ProcessInfo::name, (info,), r),
    ensures
        info.path is Some ==> r.deep_view() == name.deep_view(),
        info.path is None ==> r is None,
{
}

/// The kinds that are told as applied are those of the constraints, one for
/// each, in their order.
pub proof fn applied_constraints_are_told(
    record: &GuardRecord,
    i: int,
    label: &'static str,
    r: Vec<String>,
)
    requires
        call_ensures(guard::applied_kinds, (record,), r),
        0 <= i < record.constraints@.len(),
        call_ensures(guard::constraint_kind_label, (&record.constraints@[i],), label),
    ensures
        r@.len() == record.constraints@.len(),
        r@[i]@ == label@,
{
    let views = record@.constraints;
    assert(views.len() == record.constraints@.len());
    assert(r.deep_view().len() == r@.len());
    assert(r.deep_view()[i] == r@[i]@);
    assert(views[i] == record.constraints@[i].deep_view());
}

/// The summary of a guard names every constraint, the strong ones before the
/// weak, each kind in the order of the guard.
pub proof fn strong_constraints_are_shown_first(
    first: &GuardRecord,
    second: &GuardRecord,
    whole: &GuardRecord,
    a: Vec<String>,
    b: Vec<String>,
    r: Vec<String>,
)
    requires
        whole.constraints@ == first.constraints@ + second.constraints@,
        call_ensures(guard::summarize_guard_record, (first,), a),
        call_ensures(guard::summarize_guard_record, (second,), b),
        call_ensures(guard::summarize_guard_record, (whole,), r),
    ensures
        (forall|i: int|
            0 <= i < first.constraints@.len() ==> !(#[trigger] first.constraints@[i] is Command))
            ==> r.deep_view() == a.deep_view() + b.deep_view(),
        (forall|i: int|
            0 <= i < second.constraints@.len() ==> #[trigger] second.constraints@[i] is Command)
            ==> r.deep_view() == a.deep_view() + b.deep_view(),
        (forall|i: int|
            0 <= i < first.constraints@.len() ==> #[trigger] first.constraints@[i] is Command) && (
        forall|i: int|
            0 <= i < second.constraints@.len() ==> !(#[trigger] second.constraints@[i] is Command))
            ==> r.deep_view() == b.deep_view() + a.deep_view(),
{
    let x = first@.constraints;
    let y = second@.constraints;
    assert(whole@.constraints =~= x + y);
    let strong = |c: guard::ConstraintView| guard::is_weak(c) == false;
    let weak = |c: guard::ConstraintView| guard::is_weak(c) == true;
    let label = |c: guard::ConstraintView| guard::display_label(c);
    Seq::filter_distributes_over_add(x, y, strong);
    Seq::filter_distributes_over_add(x, y, weak);
    assert((x + y).filter(strong).map_values(label) =~= x.filter(strong).map_values(label)
        + y.filter(strong).map_values(label));
    assert((x + y).filter(weak).map_values(label) =~= x.filter(weak).map_values(label) + y.filter(
        weak,
    ).map_values(label));
    if forall|i: int|
        0 <= i < first.constraints@.len() ==> !(#[trigger] first.constraints@[i] is Command) {
        assert forall|i: int| 0 <= i < x.len() implies !weak(#[trigger] x[i]) by {
            assert(x[i] == first.constraints@[i].deep_view());
        }
        nothing_fits(x, weak);
    }
    if forall|i: int|
        0 <= i < second.constraints@.len() ==> !(#[trigger] second.constraints@[i] is Command) {
        assert forall|i: int| 0 <= i < y.len() implies !weak(#[trigger] y[i]) by {
            assert(y[i] == second.constraints@[i].deep_view());
        }
        nothing_fits(y, weak);
    }
    if forall|i: int|
        0 <= i < first.constraints@.len() ==> #[trigger] first.constraints@[i] is Command {
        assert forall|i: int| 0 <= i < x.len() implies !strong(#[trigger] x[i]) by {
            assert(x[i] == first.constraints@[i].deep_view());
        }
        nothing_fits(x, strong);
    }
    if forall|i: int|
        0 <= i < second.constraints@.len() ==> #[trigger] second.constraints@[i] is Command {
        assert forall|i: int| 0 <= i < y.len() implies !strong(#[trigger] y[i]) by {
            assert(y[i] == second.constraints@[i].deep_view());
        }
        nothing_fits(y, strong);
    }
}

proof fn nothing_fits(
    all: Seq<guard::ConstraintView>,
    fits: spec_fn(guard::ConstraintView) -> bool,
)
    requires
        forall|i: int| 0 <= i < all.len() ==> !fits(#[trigger] all[i]),
    ensures
        all.filter(fits) == Seq::<guard::ConstraintView>::empty(),
    decreases all.len(),
{
    reveal(Seq::filter);
    if all.len() > 0 {
        let before = all.drop_last();
        assert forall|i: int| 0 <= i < before.len() implies !fits(#[trigger] before[i]) by {
            assert(before[i] == all[i]);
        }
        nothing_fits(before, fits);
        assert(all[all.len() - 1] == all.last());
        assert(all =~= before.push(all.last()));
        before.lemma_filter_push(all.last(), fits);
    }
}

/// The ancestry holds what the declaration asks for.
pub open spec fn is_there(
    wire: GuardConstraintWire,
    chain: Seq<GetterProcess>,
    shells: Seq<String>,
) -> bool {
    match wire {
        GuardConstraintWire::SameUser => true,
        GuardConstraintWire::Command { .. } => true,
        GuardConstraintWire::SameShell => exists|k: int|
            0 <= k < chain.len() && goes_by_one_of((#[trigger] chain[k]).info, shells),
        GuardConstraintWire::SameAncestor { name } => exists|k: int|
            0 <= k < chain.len() && is_called((#[trigger] chain[k]).info, name@),
    }
}

proof fn what_is_there_is_planned(
    wire: GuardConstraintWire,
    chain: Seq<GetterProcess>,
    names: Vec<String>,
)
    ensures
        guard::planned_constraint(wire, chain, names.deep_view()) is Ok <==> is_there(
            wire,
            chain,
            names@,
        ),
{
    let shells = names.deep_view();
    let planned = guard::planned_constraint(wire, chain, shells);
    if wire is SameShell {
        let fits = |g: GetterProcess| guard::is_shell(g, shells);
        let k = search_finds_the_first(chain, fits);
        if planned is Ok {
            shells_go_by_one_of(chain[k], names);
        } else {
            assert forall|j: int| 0 <= j < chain.len() implies !goes_by_one_of(
                (#[trigger] chain[j]).info,
                names@,
            ) by {
                shells_go_by_one_of(chain[j], names);
                assert(!fits(chain[j]));
            }
        }
    }
    if let GuardConstraintWire::SameAncestor { name } = wire {
        let fits = |g: GetterProcess| guard::is_target(g, name@);
        let k = search_finds_the_first(chain, fits);
        if planned is Ok {
            assert(is_called(chain[k].info, name@));
        } else {
            assert forall|j: int| 0 <= j < chain.len() implies !is_called(
                (#[trigger] chain[j]).info,
                name@,
            ) by {
                assert(!fits(chain[j]));
            }
        }
    }
}

proof fn what_is_all_there_is_planned(
    wires: Seq<GuardConstraintWire>,
    chain: Seq<GetterProcess>,
    names: Vec<String>,
)
    ensures
        guard::planned_constraints(wires, chain, names.deep_view()) is Ok <==> forall|i: int|
            0 <= i < wires.len() ==> is_there(#[trigger] wires[i], chain, names@),
    decreases wires.len(),
{
    if wires.len() > 0 {
        let before = wires.drop_last();
        what_is_all_there_is_planned(before, chain, names);
        what_is_there_is_planned(wires.last(), chain, names);
        assert(wires[wires.len() - 1] == wires.last());
        assert(forall|i: int| 0 <= i < before.len() ==> before[i] == wires[i]);
        if forall|i: int| 0 <= i < before.len() ==> is_there(#[trigger] before[i], chain, names@) {
            assert forall|i: int| 0 <= i < before.len() implies is_there(
                #[trigger] wires[i],
                chain,
                names@,
            ) by {
                assert(is_there(before[i], chain, names@));
            }
        }
    }
}

/// A guard is planned exactly where the ancestry of the setter holds what every
/// one of the declarations asks for.
pub proof fn guards_need_what_they_declare(
    declared: &[GuardConstraintWire],
    token: GetterAuditToken,
    chain: &[GetterProcess],
    policy: &ResolvedKvPolicy,
    r: Result<Option<GuardRecord>, Response>,
)
    requires
        declared@.len() > 0,
        call_ensures(guard::plan_guard_record, (declared, Some(token), Some(chain), policy), r),
    ensures
        r is Ok <==> forall|i: int|
            0 <= i < declared@.len() ==> is_there(
                #[trigger] declared@[i],
                chain@,
                policy.shell_names@,
            ),
        r matches Ok(g) ==> g is Some,
{
    what_is_all_there_is_planned(declared@, chain@, policy.shell_names);
}

} // verus!
