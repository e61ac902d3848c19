//! Access guards: what a `kv.set` declares about who may read the value, and
//! the record that the daemon builds from it.
//!
//! A record pins processes by what the daemon itself observed in the setter's
//! ancestry, never by what the setter claims. A declaration that cannot be
//! pinned fails; it never leads to a weaker record.

use vstd::prelude::*;

use crate::path;
use crate::text;
use crate::wire;
use crate::wire::{ErrorKind, GuardConstraintWire, Response};

verus! {

/// A process as the inspector saw it. `start_time` is in nanoseconds.
#[derive(Debug, Clone, PartialEq, Eq)]
pub struct ProcessInfo {
    pub pid: u32,
    pub ppid: Option<u32>,
    pub path: Option<String>,
    pub start_time: Option<u64>,
}

/// A process of the requester's ancestry, with the kernel's unique id where it
/// could be read.
#[derive(Debug, Clone, PartialEq, Eq)]
pub struct GetterProcess {
    pub info: ProcessInfo,
    pub unique_id: Option<u64>,
}

/// The user ids of the peer's audit token.
#[derive(Debug, Clone, Copy, PartialEq, Eq, Structural)]
pub struct GetterAuditToken {
    pub euid: u32,
    pub ruid: u32,
}

/// The user ids of the process that set a guarded value.
#[derive(Debug, Clone, Copy, PartialEq, Eq, Structural)]
pub struct GuardSetter {
    pub euid: u32,
    pub ruid: u32,
}

/// A process that a guard is pinned to.
#[derive(Debug, Clone, PartialEq, Eq)]
pub struct PinnedProcess {
    pub pid: u32,
    pub start_time: Option<u64>,
    pub unique_id: Option<u64>,
    pub path: String,
    pub name: String,
}

/// How the setter named the ancestor that a guard is pinned to.
#[derive(Debug, Clone, PartialEq, Eq)]
pub enum DeclaredAncestor {
    SameShell { shell_name: String },
    Named { name: String },
}

/// One constraint of a guard record.
#[derive(Debug, Clone, PartialEq, Eq)]
pub enum GuardConstraint {
    SameUser,
    SameAncestor { declared: DeclaredAncestor, pinned: PinnedProcess },
    Command { name: String },
}

/// The guard of one entry.
#[derive(Debug, Clone, PartialEq, Eq)]
pub struct GuardRecord {
    pub constraints: Vec<GuardConstraint>,
    pub setter: GuardSetter,
}

/// The daemon-wide guard policy.
#[derive(Debug, Clone, PartialEq, Eq)]
pub struct ResolvedKvPolicy {
    pub default_require_same_user: bool,
    pub shell_names: Vec<String>,
}

/// What a [`PinnedProcess`] holds.
pub struct PinnedView {
    pub pid: u32,
    pub start_time: Option<u64>,
    pub unique_id: Option<u64>,
    pub path: Seq<char>,
    pub name: Seq<char>,
}

/// What a [`DeclaredAncestor`] holds.
pub enum DeclaredView {
    SameShell { shell_name: Seq<char> },
    Named { name: Seq<char> },
}

/// What a [`GuardConstraint`] holds.
pub enum ConstraintView {
    SameUser,
    SameAncestor { declared: DeclaredView, pinned: PinnedView },
    Command { name: Seq<char> },
}

/// What a [`GuardRecord`] holds.
#[verifier::ext_equal]
pub struct RecordView {
    pub constraints: Seq<ConstraintView>,
    pub setter: GuardSetter,
}

impl View for PinnedProcess {
    type V = PinnedView;

    open spec fn view(&self) -> PinnedView {
        PinnedView {
            pid: self.pid,
            start_time: self.start_time,
            unique_id: self.unique_id,
            path: self.path@,
            name: self.name@,
        }
    }
}

impl View for DeclaredAncestor {
    type V = DeclaredView;

    open spec fn view(&self) -> DeclaredView {
        match self {
            DeclaredAncestor::SameShell { shell_name } => DeclaredView::SameShell {
                shell_name: shell_name@,
            },
            DeclaredAncestor::Named { name } => DeclaredView::Named { name: name@ },
        }
    }
}

impl DeepView for GuardConstraint {
    type V = ConstraintView;

    open spec fn deep_view(&self) -> ConstraintView {
        match self {
            GuardConstraint::SameUser => ConstraintView::SameUser,
            GuardConstraint::SameAncestor { declared, pinned } => ConstraintView::SameAncestor {
                declared: declared@,
                pinned: pinned@,
            },
            GuardConstraint::Command { name } => ConstraintView::Command { name: name@ },
        }
    }
}

impl View for GuardRecord {
    type V = RecordView;

    open spec fn view(&self) -> RecordView {
        RecordView { constraints: self.constraints.deep_view(), setter: self.setter }
    }
}

/// The base name of a process's executable, where it is known.
pub open spec fn process_name(info: ProcessInfo) -> Option<Seq<char>> {
    match info.path {
        Some(p) => path::last_name(p@),
        None => None,
    }
}

impl ProcessInfo {
    /// The base name of the executable, where it is known.
    pub fn name(&self) -> (r: Option<String>)
        ensures
            r.deep_view() == process_name(*self),
    {
        match &self.path {
            Some(p) => path::file_name(p.as_str()),
            None => None,
        }
    }
}

/// What pinning `g` records.
pub open spec fn pinned_view(g: GetterProcess) -> PinnedView {
    PinnedView {
        pid: g.info.pid,
        start_time: g.info.start_time,
        unique_id: g.unique_id,
        path: match g.info.path {
            Some(p) => p@,
            None => Seq::empty(),
        },
        name: match process_name(g.info) {
            Some(n) => n,
            None => Seq::empty(),
        },
    }
}

fn getter_to_pinned(g: &GetterProcess) -> (r: PinnedProcess)
    ensures
        r@ == pinned_view(*g),
{
    PinnedProcess {
        pid: g.info.pid,
        start_time: g.info.start_time,
        unique_id: g.unique_id,
        path: match &g.info.path {
            Some(p) => p.clone(),
            None => String::new(),
        },
        name: match g.info.name() {
            Some(n) => n,
            None => String::new(),
        },
    }
}

/// The first process of `chain` that `fits`, going up from the requester.
pub open spec fn first_fitting(
    chain: Seq<GetterProcess>,
    fits: spec_fn(GetterProcess) -> bool,
) -> Option<GetterProcess>
    decreases chain.len(),
{
    if chain.len() == 0 {
        None
    } else if fits(chain[0]) {
        Some(chain[0])
    } else {
        first_fitting(chain.skip(1), fits)
    }
}

/// Whether the base name of `g` is one of the shells.
pub open spec fn is_shell(g: GetterProcess, shells: Seq<Seq<char>>) -> bool {
    process_name(g.info) matches Some(n) && shells.contains(n)
}

/// Whether `g` is the process that `target` names: by its whole path where
/// `target` starts with `/`, by its base name otherwise.
pub open spec fn is_target(g: GetterProcess, target: Seq<char>) -> bool {
    if target.len() > 0 && target[0] == '/' {
        g.info.path matches Some(p) && path::parts(p@) == path::parts(target)
    } else {
        process_name(g.info) == Some(target)
    }
}

/// Pin the first process of `chain` whose base name is one of `shells`.
fn pin_shell(chain: &[GetterProcess], shells: &[String]) -> (r: Option<PinnedProcess>)
    ensures
        match first_fitting(chain@, |g: GetterProcess| is_shell(g, shells.deep_view())) {
            Some(g) => r is Some && r->0@ == pinned_view(g),
            None => r is None,
        },
{
    let ghost fits = |g: GetterProcess| is_shell(g, shells.deep_view());
    let mut i: usize = 0;
    assert(chain@.skip(0) =~= chain@);
    while i < chain.len()
        invariant
            i <= chain.len(),
            fits == (|g: GetterProcess| is_shell(g, shells.deep_view())),
            first_fitting(chain@, fits) == first_fitting(chain@.skip(i as int), fits),
        decreases chain.len() - i,
    {
        assert(chain@.skip(i as int)[0] == chain@[i as int]);
        assert(chain@.skip(i as int).skip(1) =~= chain@.skip(i + 1));
        let g = &chain[i];
        if let Some(name) = g.info.name() {
            if text::list_has(shells, name.as_str()) {
                assert(fits(*g));
                return Some(getter_to_pinned(g));
            }
        }
        assert(!fits(*g));
        i += 1;
    }
    None
}

/// Pin the first process of `chain` that `target` names.
fn pin_ancestor(chain: &[GetterProcess], target: &str) -> (r: Option<PinnedProcess>)
    ensures
        match first_fitting(chain@, |g: GetterProcess| is_target(g, target@)) {
            Some(g) => r is Some && r->0@ == pinned_view(g),
            None => r is None,
        },
{
    let ghost fits = |g: GetterProcess| is_target(g, target@);
    let looks_like_path = match text::after_prefix(target, "/") {
        Some(_) => true,
        None => false,
    };
    proof {
        reveal_strlit("/");
        if target@.len() > 0 && target@[0] == '/' {
            assert("/"@.is_prefix_of(target@));
        }
    }
    let mut i: usize = 0;
    assert(chain@.skip(0) =~= chain@);
    while i < chain.len()
        invariant
            i <= chain.len(),
            looks_like_path == (target@.len() > 0 && target@[0] == '/'),
            fits == (|g: GetterProcess| is_target(g, target@)),
            first_fitting(chain@, fits) == first_fitting(chain@.skip(i as int), fits),
        decreases chain.len() - i,
    {
        assert(chain@.skip(i as int)[0] == chain@[i as int]);
        assert(chain@.skip(i as int).skip(1) =~= chain@.skip(i + 1));
        let g = &chain[i];
        let hit = if looks_like_path {
            match &g.info.path {
                Some(p) => path::same_path(p.as_str(), target),
                None => false,
            }
        } else {
            match g.info.name() {
                Some(name) => text::same_text(name.as_str(), target),
                None => false,
            }
        };
        assert(hit == fits(*g));
        if hit {
            return Some(getter_to_pinned(g));
        }
        i += 1;
    }
    None
}

/// The constraint that a declaration leads to, or why it leads to none.
pub open spec fn planned_constraint(
    wire: GuardConstraintWire,
    chain: Seq<GetterProcess>,
    shells: Seq<Seq<char>>,
) -> Result<ConstraintView, Seq<char>> {
    match wire {
        GuardConstraintWire::SameUser => Ok(ConstraintView::SameUser),
        GuardConstraintWire::SameShell => match first_fitting(
            chain,
            |g: GetterProcess| is_shell(g, shells),
        ) {
            Some(g) => Ok(
                ConstraintView::SameAncestor {
                    declared: DeclaredView::SameShell { shell_name: pinned_view(g).name },
                    pinned: pinned_view(g),
                },
            ),
            None => Err(
                "--require-same-shell: no shell (zsh/bash/fish/sh/nu or [kv-policy] shell-names) found in setter ancestry"@,
            ),
        },
        GuardConstraintWire::SameAncestor { name } => match first_fitting(
            chain,
            |g: GetterProcess| is_target(g, name@),
        ) {
            Some(g) => Ok(
                ConstraintView::SameAncestor {
                    declared: DeclaredView::Named { name: name@ },
                    pinned: pinned_view(g),
                },
            ),
            None => Err(
                "--require-same-ancestor="@ + name@ + ": no matching entry in setter ancestry"@,
            ),
        },
        GuardConstraintWire::Command { name } => Ok(ConstraintView::Command { name: name@ }),
    }
}

/// The constraints that a list of declarations leads to, in order, or why the
/// first failing one leads to none.
pub open spec fn planned_constraints(
    wires: Seq<GuardConstraintWire>,
    chain: Seq<GetterProcess>,
    shells: Seq<Seq<char>>,
) -> Result<Seq<ConstraintView>, Seq<char>>
    decreases wires.len(),
{
    if wires.len() == 0 {
        Ok(Seq::empty())
    } else {
        match planned_constraints(wires.drop_last(), chain, shells) {
            Err(e) => Err(e),
            Ok(before) => match planned_constraint(wires.last(), chain, shells) {
                Err(e) => Err(e),
                Ok(c) => Ok(before.push(c)),
            },
        }
    }
}

/// The guard that a `kv.set` leads to: `Ok(None)` for an unguarded entry, or
/// the refusal.
///
/// A set that declares nothing is unguarded, unless the policy makes it
/// require the same user. Any declaration needs the setter's audit token.
pub open spec fn planned_record(
    declared: Seq<GuardConstraintWire>,
    token: Option<GetterAuditToken>,
    chain: Seq<GetterProcess>,
    default_require_same_user: bool,
    shells: Seq<Seq<char>>,
) -> Result<Option<RecordView>, (ErrorKind, Seq<char>)> {
    if declared.len() == 0 && !default_require_same_user {
        Ok(None)
    } else if token is None {
        Err(
            (
                ErrorKind::AuthFailed,
                "cannot construct guard record: peer audit token unavailable"@,
            ),
        )
    } else {
        let wires = if declared.len() == 0 {
            seq![GuardConstraintWire::SameUser]
        } else {
            declared
        };
        match planned_constraints(wires, chain, shells) {
            Err(e) => Err((ErrorKind::BadRequest, e)),
            Ok(constraints) => Ok(
                Some(
                    RecordView {
                        constraints,
                        setter: GuardSetter { euid: token->0.euid, ruid: token->0.ruid },
                    },
                ),
            ),
        }
    }
}

proof fn first_failure_stays(
    wires: Seq<GuardConstraintWire>,
    n: int,
    chain: Seq<GetterProcess>,
    shells: Seq<Seq<char>>,
)
    requires
        0 <= n <= wires.len(),
        planned_constraints(wires.take(n), chain, shells) is Err,
    ensures
        planned_constraints(wires, chain, shells) == planned_constraints(
            wires.take(n),
            chain,
            shells,
        ),
    decreases wires.len() - n,
{
    if n < wires.len() {
        assert(wires.take(n + 1).drop_last() =~= wires.take(n));
        first_failure_stays(wires, n + 1, chain, shells);
    } else {
        assert(wires.take(n) =~= wires);
    }
}

fn plan_constraint(
    wire: &GuardConstraintWire,
    chain: &[GetterProcess],
    shells: &[String],
) -> (r: Result<GuardConstraint, String>)
    ensures
        match r {
            Ok(c) => planned_constraint(*wire, chain@, shells.deep_view()) == Ok::<
                ConstraintView,
                Seq<char>,
            >(c.deep_view()),
            Err(e) => planned_constraint(*wire, chain@, shells.deep_view()) == Err::<
                ConstraintView,
                Seq<char>,
            >(e@),
        },
{
    match wire {
        GuardConstraintWire::SameUser => Ok(GuardConstraint::SameUser),
        GuardConstraintWire::SameShell => match pin_shell(chain, shells) {
            Some(pinned) => Ok(
                GuardConstraint::SameAncestor {
                    declared: DeclaredAncestor::SameShell { shell_name: pinned.name.clone() },
                    pinned,
                },
            ),
            None => Err(
                "--require-same-shell: no shell (zsh/bash/fish/sh/nu or [kv-policy] shell-names) found in setter ancestry".to_owned(),
            ),
        },
        GuardConstraintWire::SameAncestor { name } => match pin_ancestor(chain, name.as_str()) {
            Some(pinned) => Ok(
                GuardConstraint::SameAncestor {
                    declared: DeclaredAncestor::Named { name: name.clone() },
                    pinned,
                },
            ),
            None => Err(
                "--require-same-ancestor=".to_owned().concat(name.as_str()).concat(
                    ": no matching entry in setter ancestry",
                ),
            ),
        },
        GuardConstraintWire::Command { name } => Ok(GuardConstraint::Command { name: name.clone() }),
    }
}

/// The ancestry that pinning looks through: nothing, where it is unknown.
pub open spec fn known_chain(chain: Option<&[GetterProcess]>) -> Seq<GetterProcess> {
    match chain {
        Some(c) => c@,
        None => Seq::empty(),
    }
}

/// Build the guard record of a `kv.set`, `Ok(None)` for an unguarded entry, or
/// the refusal. Nothing is stored on a refusal.
pub fn plan_guard_record(
    declared: &[GuardConstraintWire],
    token: Option<GetterAuditToken>,
    chain: Option<&[GetterProcess]>,
    policy: &ResolvedKvPolicy,
) -> (r: Result<Option<GuardRecord>, Response>)
    ensures
        match planned_record(
            declared@,
            token,
            known_chain(chain),
            policy.default_require_same_user,
            policy.shell_names.deep_view(),
        ) {
            Ok(None) => r matches Ok(None),
            Ok(Some(record)) => r matches Ok(Some(g)) && g@ == record,
            Err((kind, message)) => r matches Err(resp) && wire::is_error(resp, kind, message),
        },
{
    if declared.len() == 0 && !policy.default_require_same_user {
        return Ok(None);
    }
    let setter = match token {
        Some(t) => GuardSetter { euid: t.euid, ruid: t.ruid },
        None => {
            return Err(
                Response::error(
                    ErrorKind::AuthFailed,
                    "cannot construct guard record: peer audit token unavailable",
                ),
            );
        },
    };
    let implicit = [GuardConstraintWire::SameUser];
    let wires: &[GuardConstraintWire] = if declared.len() == 0 {
        &implicit
    } else {
        declared
    };
    let no_chain: [GetterProcess; 0] = [];
    let known: &[GetterProcess] = match chain {
        Some(c) => c,
        None => &no_chain,
    };
    proof {
        if declared@.len() == 0 {
            assert(wires@ =~= seq![GuardConstraintWire::SameUser]);
        }
        assert(known@ =~= known_chain(chain));
    }
    let shells: &[String] = policy.shell_names.as_slice();
    let mut constraints: Vec<GuardConstraint> = Vec::new();
    let mut i: usize = 0;
    proof {
        assert(wires@.take(0) =~= Seq::<GuardConstraintWire>::empty());
        assert(constraints.deep_view() =~= Seq::<ConstraintView>::empty());
        assert(shells.deep_view() =~= policy.shell_names.deep_view());
    }
    while i < wires.len()
        invariant
            i <= wires.len(),
            planned_constraints(wires@.take(i as int), known@, shells.deep_view()) == Ok::<
                Seq<ConstraintView>,
                Seq<char>,
            >(constraints.deep_view()),
            wires@ == (if declared@.len() == 0 {
                seq![GuardConstraintWire::SameUser]
            } else {
                declared@
            }),
            known@ == known_chain(chain),
            shells.deep_view() == policy.shell_names.deep_view(),
            token is Some,
            declared@.len() > 0 || policy.default_require_same_user,
        decreases wires.len() - i,
    {
        let ghost before = constraints.deep_view();
        proof {
            let now = wires@.take(i + 1);
            assert(now.drop_last() =~= wires@.take(i as int));
            assert(now.last() == wires@[i as int]);
        }
        match plan_constraint(&wires[i], known, shells) {
            Ok(c) => {
                constraints.push(c);
                assert(constraints.deep_view() =~= before.push(c.deep_view()));
            },
            Err(e) => {
                proof {
                    first_failure_stays(wires@, i + 1, known@, shells.deep_view());
                }
                return Err(Response::error(ErrorKind::BadRequest, e.as_str()));
            },
        }
        i += 1;
    }
    assert(wires@.take(i as int) =~= wires@);
    Ok(Some(GuardRecord { constraints, setter }))
}

/// Once the setter declared anything, the policy's default adds nothing: the
/// declaration alone decides.
pub proof fn declaration_overrides_default(
    declared: Seq<GuardConstraintWire>,
    token: Option<GetterAuditToken>,
    chain: Seq<GetterProcess>,
    shells: Seq<Seq<char>>,
)
    requires
        declared.len() > 0,
    ensures
        planned_record(declared, token, chain, true, shells) == planned_record(
            declared,
            token,
            chain,
            false,
            shells,
        ),
{
}

/// Without the setter's audit token no declaration is accepted.
pub proof fn declaration_needs_token(
    declared: Seq<GuardConstraintWire>,
    chain: Seq<GetterProcess>,
    default_require_same_user: bool,
    shells: Seq<Seq<char>>,
)
    requires
        declared.len() > 0 || default_require_same_user,
    ensures
        planned_record(declared, None, chain, default_require_same_user, shells) is Err,
{
}

/// A record holds one constraint for each declaration, in the order they were
/// declared: nothing that was asked for is dropped.
pub proof fn record_keeps_every_declaration(
    declared: Seq<GuardConstraintWire>,
    token: Option<GetterAuditToken>,
    chain: Seq<GetterProcess>,
    default_require_same_user: bool,
    shells: Seq<Seq<char>>,
)
    requires
        declared.len() > 0,
    ensures
        planned_record(declared, token, chain, default_require_same_user, shells) matches Ok(r)
            ==> {
            &&& r is Some
            &&& r->0.constraints.len() == declared.len()
            &&& forall|i: int|
                0 <= i < declared.len() ==> planned_constraint(
                    #[trigger] declared[i],
                    chain,
                    shells,
                ) == Ok::<ConstraintView, Seq<char>>(r->0.constraints[i])
        },
{
    constraints_follow_declarations(declared, chain, shells);
}

proof fn constraints_follow_declarations(
    wires: Seq<GuardConstraintWire>,
    chain: Seq<GetterProcess>,
    shells: Seq<Seq<char>>,
)
    ensures
        planned_constraints(wires, chain, shells) matches Ok(cs) ==> {
            &&& cs.len() == wires.len()
            &&& forall|i: int|
                0 <= i < wires.len() ==> planned_constraint(#[trigger] wires[i], chain, shells)
                    == Ok::<ConstraintView, Seq<char>>(cs[i])
        },
    decreases wires.len(),
{
    if wires.len() > 0 {
        constraints_follow_declarations(wires.drop_last(), chain, shells);
        if planned_constraints(wires, chain, shells) is Ok {
            let before = planned_constraints(wires.drop_last(), chain, shells)->Ok_0;
            assert forall|i: int| 0 <= i < wires.len() implies planned_constraint(
                #[trigger] wires[i],
                chain,
                shells,
            ) == Ok::<ConstraintView, Seq<char>>(
                planned_constraints(wires, chain, shells)->Ok_0[i],
            ) by {
                if i < wires.len() - 1 {
                    assert(wires.drop_last()[i] == wires[i]);
                }
            }
        }
    }
}

/// The name of a constraint's kind, without anything it is pinned to.
pub open spec fn kind_label(c: ConstraintView) -> Seq<char> {
    match c {
        ConstraintView::SameUser => "same-user"@,
        ConstraintView::SameAncestor { declared, .. } => match declared {
            DeclaredView::SameShell { .. } => "same-shell"@,
            DeclaredView::Named { .. } => "same-ancestor"@,
        },
        ConstraintView::Command { .. } => "command"@,
    }
}

/// The name of a constraint's kind, without anything it is pinned to.
pub fn constraint_kind_label(c: &GuardConstraint) -> (r: &'static str)
    ensures
        r@ == kind_label(c.deep_view()),
{
    match c {
        GuardConstraint::SameUser => "same-user",
        GuardConstraint::SameAncestor { declared, .. } => match declared {
            DeclaredAncestor::SameShell { .. } => "same-shell",
            DeclaredAncestor::Named { .. } => "same-ancestor",
        },
        GuardConstraint::Command { .. } => "command",
    }
}

/// The kinds of a record's constraints, in order.
pub fn applied_kinds(record: &GuardRecord) -> (r: Vec<String>)
    ensures
        r.deep_view() == record@.constraints.map_values(|c: ConstraintView| kind_label(c)),
{
    let mut out: Vec<String> = Vec::new();
    let ghost all = record@.constraints;
    let ghost labels = all.map_values(|c: ConstraintView| kind_label(c));
    let mut i: usize = 0;
    while i < record.constraints.len()
        invariant
            i <= record.constraints.len(),
            all == record.constraints.deep_view(),
            labels == all.map_values(|c: ConstraintView| kind_label(c)),
            out.deep_view() == labels.take(i as int),
        decreases record.constraints.len() - i,
    {
        text::push_text(&mut out, constraint_kind_label(&record.constraints[i]).to_owned());
        assert(out.deep_view() =~= labels.take(i + 1));
        i += 1;
    }
    assert(labels.take(i as int) =~= labels);
    out
}

/// Whether a constraint can be met by a process that merely took the name.
pub open spec fn is_weak(c: ConstraintView) -> bool {
    c is Command
}

/// How a constraint is shown: its kind, the declared name, and a mark on a
/// weak one.
pub open spec fn display_label(c: ConstraintView) -> Seq<char> {
    match c {
        ConstraintView::SameUser => "same-user"@,
        ConstraintView::SameAncestor { declared, .. } => match declared {
            DeclaredView::SameShell { shell_name } => "same-shell ("@ + shell_name + ")"@,
            DeclaredView::Named { name } => "same-ancestor ("@ + name + ")"@,
        },
        ConstraintView::Command { name } => "command ("@ + name + ") (weak)"@,
    }
}

/// The labels of the weak or of the strong constraints, in order.
pub open spec fn labels_of(constraints: Seq<ConstraintView>, weak: bool) -> Seq<Seq<char>> {
    constraints.filter(|c: ConstraintView| is_weak(c) == weak).map_values(
        |c: ConstraintView| display_label(c),
    )
}

/// The labels of all constraints, the strong ones first.
pub open spec fn summary_labels(constraints: Seq<ConstraintView>) -> Seq<Seq<char>> {
    labels_of(constraints, false) + labels_of(constraints, true)
}

fn constraint_label(c: &GuardConstraint) -> (r: String)
    ensures
        r@ == display_label(c.deep_view()),
{
    match c {
        GuardConstraint::SameUser => "same-user".to_owned(),
        GuardConstraint::SameAncestor { declared, .. } => match declared {
            DeclaredAncestor::SameShell { shell_name } => "same-shell (".to_owned().concat(
                shell_name.as_str(),
            ).concat(")"),
            DeclaredAncestor::Named { name } => "same-ancestor (".to_owned().concat(
                name.as_str(),
            ).concat(")"),
        },
        GuardConstraint::Command { name } => "command (".to_owned().concat(name.as_str()).concat(
            ") (weak)",
        ),
    }
}

fn push_labels(record: &GuardRecord, weak: bool, out: &mut Vec<String>)
    ensures
        final(out).deep_view() == old(out).deep_view() + labels_of(record@.constraints, weak),
{
    let ghost all = record@.constraints;
    let ghost start = out.deep_view();
    let ghost kept = |c: ConstraintView| is_weak(c) == weak;
    let mut i: usize = 0;
    proof {
        assert(all.take(0).filter(kept) =~= Seq::<ConstraintView>::empty()) by {
            assert(all.take(0) =~= Seq::<ConstraintView>::empty());
            reveal(Seq::filter);
        }
        assert(start + labels_of(all.take(0), weak) =~= start);
    }
    while i < record.constraints.len()
        invariant
            i <= record.constraints.len(),
            all == record.constraints.deep_view(),
            kept == (|c: ConstraintView| is_weak(c) == weak),
            out.deep_view() == start + labels_of(all.take(i as int), weak),
        decreases record.constraints.len() - i,
    {
        let c = &record.constraints[i];
        let is_command = match c {
            GuardConstraint::Command { .. } => true,
            _ => false,
        };
        proof {
            assert(all.take(i + 1) =~= all.take(i as int).push(all[i as int]));
            all.take(i as int).lemma_filter_push(all[i as int], kept);
        }
        if is_command == weak {
            text::push_text(out, constraint_label(c));
            assert(labels_of(all.take(i + 1), weak) =~= labels_of(all.take(i as int), weak).push(
                display_label(all[i as int]),
            ));
            assert(out.deep_view() =~= start + labels_of(all.take(i + 1), weak));
        }
        i += 1;
    }
    assert(all.take(i as int) =~= all);
}

/// The labels under which a record's constraints are shown: the strong ones
/// first, each group in the order of the record.
pub fn summarize_guard_record(record: &GuardRecord) -> (r: Vec<String>)
    ensures
        r.deep_view() == summary_labels(record@.constraints),
{
    let mut out: Vec<String> = Vec::new();
    push_labels(record, false, &mut out);
    push_labels(record, true, &mut out);
    assert(out.deep_view() =~= summary_labels(record@.constraints));
    out
}

/// The summary shows every constraint exactly once.
pub proof fn summary_shows_every_constraint(constraints: Seq<ConstraintView>)
    ensures
        summary_labels(constraints).len() == constraints.len(),
    decreases constraints.len(),
{
    let strong = |c: ConstraintView| is_weak(c) == false;
    let weak = |c: ConstraintView| is_weak(c) == true;
    if constraints.len() == 0 {
        reveal(Seq::filter);
    } else {
        let before = constraints.drop_last();
        let last = constraints.last();
        summary_shows_every_constraint(before);
        assert(constraints =~= before.push(last));
        before.lemma_filter_push(last, strong);
        before.lemma_filter_push(last, weak);
    }
}

/// Whether the base name of a process is among `allowed`.
pub open spec fn allowed_process(info: ProcessInfo, allowed: Seq<Seq<char>>) -> bool {
    process_name(info) matches Some(n) && allowed.contains(n)
}

/// Whether some process of the chain has a base name among `allowed`.
pub open spec fn chain_allowed(chain: Seq<ProcessInfo>, allowed: Seq<Seq<char>>) -> bool {
    exists|i: int|
        0 <= i < chain.len() && allowed_process(#[trigger] chain[i], allowed)
}

/// Whether a requester may read a key restricted to the processes `allowed`: a
/// process of its ancestry must be one of them, and an unknown requester may
/// not.
pub open spec fn gate_passes(
    requester: Option<&[ProcessInfo]>,
    allowed: Seq<Seq<char>>,
) -> bool {
    requester matches Some(chain) && chain_allowed(chain@, allowed)
}

/// Whether a requester may read a key restricted to the processes `allowed`.
pub fn chain_gate_passes(requester: Option<&[ProcessInfo]>, allowed: &[String]) -> (r: bool)
    ensures
        r == gate_passes(requester, allowed.deep_view()),
{
    let chain = match requester {
        None => {
            return false;
        },
        Some(c) => c,
    };
    let mut i: usize = 0;
    while i < chain.len()
        invariant
            i <= chain.len(),
            requester == Some(chain),
            forall|j: int|
                0 <= j < i ==> !allowed_process(#[trigger] chain@[j], allowed.deep_view()),
        decreases chain.len() - i,
    {
        if let Some(name) = chain[i].name() {
            if text::list_has(allowed, name.as_str()) {
                assert(allowed_process(chain@[i as int], allowed.deep_view()));
                return true;
            }
        }
        i += 1;
    }
    false
}

} // verus!
