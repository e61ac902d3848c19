//! Laws of the mode and the namespace that a command works in.

use vstd::prelude::*;

use crate::cli;
use crate::mode;
use crate::mode::{Mode, ModeFlag};
use crate::text;

verus! {

/// A word by which the environment asks for a dry run.
pub open spec fn says_yes(word: Seq<char>) -> bool {
    word == "1"@ || word == "true"@ || word == "yes"@ || word == "on"@
}

/// A word by which the environment asks for values to be shown.
pub open spec fn says_no(word: Seq<char>) -> bool {
    word == "0"@ || word == "false"@ || word == "no"@ || word == "off"@
}

proof fn yes_is_not_no(word: Seq<char>)
    ensures
        !(says_yes(word) && says_no(word)),
        says_yes(word) || says_no(word) ==> word.len() > 0,
{
    reveal_strlit("1");
    reveal_strlit("true");
    reveal_strlit("yes");
    reveal_strlit("on");
    reveal_strlit("0");
    reveal_strlit("false");
    reveal_strlit("no");
    reveal_strlit("off");
    assert("1"@.len() == 1 && "true"@.len() == 4 && "yes"@.len() == 3 && "on"@.len() == 2);
    assert("0"@.len() == 1 && "false"@.len() == 5 && "no"@.len() == 2 && "off"@.len() == 3);
    assert("1"@[0] != "0"@[0]);
    assert("on"@[0] != "no"@[0]);
    assert("yes"@[0] != "off"@[0]);
}

/// Without a flag the environment decides: `1`, `true`, `yes` and `on` mask
/// values, `0`, `false`, `no` and `off` show them, whatever the configuration
/// says, in whatever letters and with whatever space around. Any other word is
/// refused, and a blank one leaves it to the configuration.
pub proof fn the_environment_sets_the_mode(
    value: String,
    v: &str,
    t: &str,
    word: String,
    config: Option<Mode>,
    r: Result<Mode, String>,
)
    requires
        v@ == value@,
        call_ensures(text::trim, (v,), t),
        call_ensures(text::lowercase, (t,), word),
        call_ensures(cli::resolve_cli_mode, (None::<ModeFlag>, Some(value), config), r),
    ensures
        says_yes(word@) ==> r == Ok::<Mode, String>(Mode::DryRun),
        says_no(word@) ==> r == Ok::<Mode, String>(Mode::Reveal),
        word@.len() == 0 ==> r == Ok::<Mode, String>(
            match config {
                Some(m) => m,
                None => Mode::Reveal,
            },
        ),
        word@.len() > 0 && !says_yes(word@) && !says_no(word@) ==> r is Err,
{
    yes_is_not_no(word@);
}

/// What the environment says of a dry run, by the same words.
pub proof fn what_the_environment_says(
    value: String,
    v: &str,
    t: &str,
    word: String,
    r: Result<Option<bool>, String>,
)
    requires
        v@ == value@,
        call_ensures(text::trim, (v,), t),
        call_ensures(text::lowercase, (t,), word),
        call_ensures(mode::env_dry_run_is_set, (Some(value),), r),
    ensures
        says_yes(word@) <==> r == Ok::<Option<bool>, String>(Some(true)),
        says_no(word@) <==> r == Ok::<Option<bool>, String>(Some(false)),
        word@.len() == 0 <==> r == Ok::<Option<bool>, String>(None),
{
    yes_is_not_no(word@);
}

/// A flag decides by its own name, beside any environment that is a boolean and
/// any configuration; without a flag and without the variable the configuration
/// decides, and without that values are shown.
pub proof fn a_flag_sets_its_mode(
    flag: Option<ModeFlag>,
    env: Option<String>,
    config: Option<Mode>,
    m: Mode,
)
    requires
        call_ensures(cli::resolve_cli_mode, (flag, env, config), Ok(m)),
    ensures
        flag == Some(ModeFlag::DryRun) ==> m == Mode::DryRun,
        flag == Some(ModeFlag::Reveal) ==> m == Mode::Reveal,
        flag is None && env is None && config is Some ==> Some(m) == config,
        flag is None && env is None && config is None ==> m == Mode::Reveal,
{
}

/// A variable that is no boolean is refused even beside a flag, and nothing else
/// is.
pub proof fn only_a_bad_variable_is_refused(
    flag: Option<ModeFlag>,
    env: Option<String>,
    config: Option<Mode>,
    said: Result<Option<bool>, String>,
    r: Result<Mode, String>,
)
    requires
        call_ensures(mode::env_dry_run_is_set, (env,), said),
        call_ensures(cli::resolve_cli_mode, (flag, env, config), r),
    ensures
        r is Ok <==> said is Ok,
{
}

/// Among the options before `--` each flag is found by its name, and is taken
/// out; together they are refused. The other arguments stay, in order.
pub proof fn flags_are_taken_out(
    args: &[String],
    r: Result<(Option<ModeFlag>, Vec<String>), String>,
)
    requires
        forall|i: int| 0 <= i < args@.len() ==> (#[trigger] args@[i])@ != "--"@,
        call_ensures(mode::take_mode_flag, (args,), r),
    ensures
        ({
            let shown = exists|i: int|
                0 <= i < args@.len() && (#[trigger] args@[i])@ == "--reveal"@;
            let masked = exists|i: int|
                0 <= i < args@.len() && (#[trigger] args@[i])@ == "--dry-run"@;
            &&& r is Err <==> shown && masked
            &&& r matches Ok((flag, rest)) ==> {
                &&& flag == Some(ModeFlag::Reveal) <==> shown
                &&& flag == Some(ModeFlag::DryRun) <==> masked
                &&& !shown && !masked ==> rest.deep_view() == args.deep_view()
                &&& forall|j: int|
                    0 <= j < rest@.len() ==> (#[trigger] rest@[j])@ != "--reveal"@ && rest@[j]@
                        != "--dry-run"@
            }
        }),
{
    let all = args.deep_view();
    assert(!all.contains("--"@)) by {
        if all.contains("--"@) {
            let i = choose|i: int| 0 <= i < all.len() && all[i] == "--"@;
            assert(args@[i]@ == "--"@);
        }
    }
    everything_is_an_option(all);
    let other = |a: Seq<char>| !mode::is_mode_flag(a);
    reveal_strlit("--reveal");
    reveal_strlit("--dry-run");
    assert("--reveal"@.len() != "--dry-run"@.len());
    if all.contains("--reveal"@) {
        let i = choose|i: int| 0 <= i < all.len() && all[i] == "--reveal"@;
        assert(args@[i]@ == "--reveal"@);
    }
    if all.contains("--dry-run"@) {
        let i = choose|i: int| 0 <= i < all.len() && all[i] == "--dry-run"@;
        assert(args@[i]@ == "--dry-run"@);
    }
    assert forall|i: int| 0 <= i < args@.len() implies all.contains((#[trigger] args@[i])@) by {
        assert(all[i] == args@[i]@);
    }
    if let Ok((flag, rest)) = r {
        assert(all.skip(all.len() as int) =~= Seq::<Seq<char>>::empty());
        assert(rest.deep_view() =~= all.filter(other));
        assert forall|j: int| 0 <= j < rest@.len() implies (#[trigger] rest@[j])@ != "--reveal"@
            && rest@[j]@ != "--dry-run"@ by {
            all.lemma_filter_pred(other, j);
            assert(rest.deep_view()[j] == rest@[j]@);
        }
        if !all.contains("--reveal"@) && !all.contains("--dry-run"@) {
            nothing_is_filtered_out(all, other);
        }
    }
}

/// Where a flag stands makes no difference: without it the same arguments are
/// left over.
pub proof fn a_flag_may_stand_anywhere(
    before: Seq<Seq<char>>,
    flag: Seq<char>,
    behind: Seq<Seq<char>>,
    args: &[String],
    plain: &[String],
    r: (Option<ModeFlag>, Vec<String>),
    s: (Option<ModeFlag>, Vec<String>),
)
    requires
        flag == "--reveal"@ || flag == "--dry-run"@,
        !(before + behind).contains("--"@),
        args.deep_view() == before + seq![flag] + behind,
        plain.deep_view() == before + behind,
        call_ensures(mode::take_mode_flag, (args,), Ok(r)),
        call_ensures(mode::take_mode_flag, (plain,), Ok(s)),
    ensures
        r.1.deep_view() == s.1.deep_view(),
{
    let other = |a: Seq<char>| !mode::is_mode_flag(a);
    let all = args.deep_view();
    let less = plain.deep_view();
    reveal_strlit("--");
    reveal_strlit("--reveal");
    reveal_strlit("--dry-run");
    assert("--"@.len() == 2 && "--reveal"@.len() == 8 && "--dry-run"@.len() == 9);
    assert(!all.contains("--"@)) by {
        if all.contains("--"@) {
            let i = choose|i: int| 0 <= i < all.len() && all[i] == "--"@;
            if i < before.len() {
                assert((before + behind)[i] == "--"@);
            } else {
                assert((before + behind)[i - 1] == "--"@);
            }
        }
    }
    everything_is_an_option(all);
    everything_is_an_option(less);
    assert(all.skip(all.len() as int) =~= Seq::<Seq<char>>::empty());
    assert(less.skip(less.len() as int) =~= Seq::<Seq<char>>::empty());
    Seq::filter_distributes_over_add(before, seq![flag] + behind, other);
    Seq::filter_distributes_over_add(seq![flag], behind, other);
    Seq::filter_distributes_over_add(before, behind, other);
    assert(before + (seq![flag] + behind) =~= all);
    assert(seq![flag].filter(other) =~= Seq::<Seq<char>>::empty()) by {
        reveal(Seq::filter);
        assert(seq![flag].drop_last() =~= Seq::<Seq<char>>::empty());
        assert(Seq::<Seq<char>>::empty().filter(other) =~= Seq::<Seq<char>>::empty());
    }
    assert(all.filter(other) =~= less.filter(other));
    assert(r.1.deep_view() =~= all.filter(other));
    assert(s.1.deep_view() =~= less.filter(other));
}

proof fn everything_is_an_option(all: Seq<Seq<char>>)
    requires
        !all.contains("--"@),
    ensures
        crate::args::options_of(all) == all,
    decreases all.len(),
{
    if all.len() > 0 {
        assert(all[0] != "--"@);
        assert forall|i: int| 0 <= i < all.skip(1).len() implies all.skip(1)[i] != "--"@ by {
            assert(all[i + 1] != "--"@);
        }
        everything_is_an_option(all.skip(1));
        assert(seq![all[0]] + all.skip(1) =~= all);
    } else {
        assert(all =~= Seq::<Seq<char>>::empty());
    }
}

proof fn nothing_is_filtered_out(all: Seq<Seq<char>>, keep: spec_fn(Seq<char>) -> bool)
    requires
        forall|i: int| 0 <= i < all.len() ==> keep(#[trigger] all[i]),
    ensures
        all.filter(keep) == all,
    decreases all.len(),
{
    reveal(Seq::filter);
    if all.len() > 0 {
        let front = all.drop_last();
        assert forall|i: int| 0 <= i < front.len() implies keep(#[trigger] front[i]) by {
            assert(front[i] == all[i]);
        }
        nothing_is_filtered_out(front, keep);
        assert(all[all.len() - 1] == all.last());
        assert(front.push(all.last()) =~= all);
    }
}

/// A flag is preferred to the environment, the environment to the configuration,
/// and without any of them values are revealed.
pub proof fn what_sets_the_mode(
    flag: Option<ModeFlag>,
    env: Option<bool>,
    config: Option<Mode>,
    r: Mode,
    dry: bool,
)
    requires
        call_ensures(mode::resolve_mode, (flag, env, config), r),
        call_ensures(Mode::is_dry_run, (r,), dry),
    ensures
        flag == Some(ModeFlag::DryRun) ==> dry,
        flag == Some(ModeFlag::Reveal) ==> !dry,
        flag is None && env is Some ==> dry == env->0,
        flag is None && env is None && config is Some ==> r == config->0,
        flag is None && env is None && config is None ==> !dry,
        dry <==> r == Mode::DryRun,
{
}

} // verus!
