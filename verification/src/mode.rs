//! Whether a command reveals values or only verifies them.
//!
//! The `--reveal` or `--dry-run` flag decides, then `CACHE_WARDEN_DRY_RUN`, then
//! `[cli].default-mode`; without any of these values are revealed.

use vstd::prelude::*;

use crate::args;
use crate::text;

verus! {

/// Whether values are shown.
#[derive(Debug, Clone, Copy, PartialEq, Eq, Structural)]
pub enum Mode {
    /// Show values.
    Reveal,
    /// Run everything that leads to a value, and show a mask in its place.
    DryRun,
}

impl Mode {
    /// Whether values are masked.
    pub fn is_dry_run(self) -> (r: bool)
        ensures
            r == (self == Mode::DryRun),
    {
        match self {
            Mode::DryRun => true,
            Mode::Reveal => false,
        }
    }
}

/// The flag that was given.
#[derive(Debug, Clone, Copy, PartialEq, Eq, Structural)]
pub enum ModeFlag {
    /// `--reveal`.
    Reveal,
    /// `--dry-run`.
    DryRun,
}

/// Whether an argument is one of the two flags.
pub open spec fn is_mode_flag(arg: Seq<char>) -> bool {
    arg == "--reveal"@ || arg == "--dry-run"@
}

/// The arguments other than the two flags.
pub open spec fn without_mode_flags(args: Seq<Seq<char>>) -> Seq<Seq<char>> {
    args.filter(|a: Seq<char>| !is_mode_flag(a))
}

/// The complaint about both flags.
pub open spec fn mode_conflict() -> Seq<char> {
    "--reveal and --dry-run cannot be combined (they request opposite modes)"@
}

proof fn flags_differ()
    ensures
        "--reveal"@ != "--dry-run"@,
{
    reveal_strlit("--reveal");
    reveal_strlit("--dry-run");
    assert("--reveal"@.len() != "--dry-run"@.len());
}

/// Take the `--reveal` or `--dry-run` flag out of `args`: the flag, if one was
/// given, and the arguments left over. Both together are refused; repeating one
/// is not. What stands behind `--` is left as it is.
pub fn take_mode_flag(args: &[String]) -> (r: Result<(Option<ModeFlag>, Vec<String>), String>)
    ensures
        ({
            let all = args.deep_view();
            let options = args::options_of(all);
            let shown = options.contains("--reveal"@);
            let masked = options.contains("--dry-run"@);
            match r {
                Ok((flag, rest)) => {
                    &&& !(shown && masked)
                    &&& rest.deep_view() == without_mode_flags(options) + all.skip(
                        options.len() as int,
                    )
                    &&& flag == if shown {
                        Some(ModeFlag::Reveal)
                    } else if masked {
                        Some(ModeFlag::DryRun)
                    } else {
                        None
                    }
                },
                Err(e) => shown && masked && e@ == mode_conflict(),
            }
        }),
{
    let count = args::option_count(args, true, false);
    let ghost all = args.deep_view();
    let ghost options = all.take(count as int);
    let ghost other = |a: Seq<char>| !is_mode_flag(a);
    let mut flag: Option<ModeFlag> = None;
    let mut rest: Vec<String> = Vec::new();
    let mut i: usize = 0;
    proof {
        flags_differ();
        assert(options.take(0) =~= Seq::<Seq<char>>::empty());
        reveal(Seq::filter);
        assert(rest.deep_view() =~= options.take(0).filter(other));
    }
    while i < count
        invariant
            i <= count <= args.len(),
            all == args.deep_view(),
            options == all.take(count as int),
            options == args::options_of(all),
            other == (|a: Seq<char>| !is_mode_flag(a)),
            rest.deep_view() == options.take(i as int).filter(other),
            flag == Some(ModeFlag::Reveal) <==> exists|j: int|
                0 <= j < i && #[trigger] options[j] == "--reveal"@,
            flag == Some(ModeFlag::DryRun) <==> exists|j: int|
                0 <= j < i && #[trigger] options[j] == "--dry-run"@,
            "--reveal"@ != "--dry-run"@,
        decreases count - i,
    {
        let a = args[i].as_str();
        proof {
            assert(options[i as int] == a@);
            assert(options.take(i + 1) =~= options.take(i as int).push(options[i as int]));
            options.take(i as int).lemma_filter_push(options[i as int], other);
        }
        let given = if text::same_text(a, "--reveal") {
            Some(ModeFlag::Reveal)
        } else if text::same_text(a, "--dry-run") {
            Some(ModeFlag::DryRun)
        } else {
            None
        };
        match given {
            None => {
                text::push_text(&mut rest, args[i].clone());
            },
            Some(g) => {
                match flag {
                    None => {
                        flag = Some(g);
                    },
                    Some(f) => {
                        if f != g {
                            return Err(
                                "--reveal and --dry-run cannot be combined (they request opposite modes)".to_owned(),
                            );
                        }
                    },
                }
            },
        }
        i += 1;
    }
    proof {
        assert(options.take(i as int) =~= options);
        assert(options.contains("--reveal"@) <==> flag == Some(ModeFlag::Reveal)) by {
            if options.contains("--reveal"@) {
                let j = options.index_of("--reveal"@);
                assert(options[j] == "--reveal"@);
            }
        }
        assert(options.contains("--dry-run"@) <==> flag == Some(ModeFlag::DryRun)) by {
            if options.contains("--dry-run"@) {
                let j = options.index_of("--dry-run"@);
                assert(options[j] == "--dry-run"@);
            }
        }
        match flag {
            None => {},
            Some(ModeFlag::Reveal) => {},
            Some(ModeFlag::DryRun) => {},
        }
    }
    let ghost left = rest.deep_view();
    let ghost taken = all.skip(count as int);
    assert(left + taken.take(0) =~= left);
    while i < args.len()
        invariant
            count <= i <= args.len(),
            all == args.deep_view(),
            taken == all.skip(count as int),
            rest.deep_view() == left + taken.take(i - count),
        decreases args.len() - i,
    {
        text::push_text(&mut rest, args[i].clone());
        assert(taken[i - count] == args@[i as int]@);
        assert(rest.deep_view() =~= left + taken.take(i - count + 1));
        i += 1;
    }
    assert(taken.take(i - count) =~= taken);
    Ok((flag, rest))
}

/// What stands behind `--` is passed on as it is, whatever it is, and decides
/// nothing.
pub proof fn nothing_behind_the_separator_sets_the_mode(
    options: Seq<Seq<char>>,
    taken: Seq<Seq<char>>,
)
    requires
        !options.contains("--"@),
    ensures
        args::options_of(options + seq!["--"@] + taken) == options,
        (options + seq!["--"@] + taken).skip(options.len() as int) == seq!["--"@] + taken,
    decreases options.len(),
{
    let all = options + seq!["--"@] + taken;
    assert(all.skip(options.len() as int) =~= seq!["--"@] + taken);
    if options.len() > 0 {
        let tail = options.skip(1);
        assert forall|i: int| 0 <= i < tail.len() implies #[trigger] tail[i] != "--"@ by {
            assert(tail[i] == options[i + 1]);
        }
        nothing_behind_the_separator_sets_the_mode(tail, taken);
        assert(options[0] != "--"@);
        assert(all.skip(1) =~= tail + seq!["--"@] + taken);
        assert(seq![options[0]] + tail =~= options);
    } else {
        assert(all[0] == "--"@);
        assert(options =~= Seq::<Seq<char>>::empty());
    }
}

/// The mode in force: the flag, then the environment, then the configuration,
/// then revealing.
pub open spec fn resolved_mode(
    flag: Option<ModeFlag>,
    env_dry_run: Option<bool>,
    config_default: Option<Mode>,
) -> Mode {
    match flag {
        Some(ModeFlag::Reveal) => Mode::Reveal,
        Some(ModeFlag::DryRun) => Mode::DryRun,
        None => match env_dry_run {
            Some(true) => Mode::DryRun,
            Some(false) => Mode::Reveal,
            None => match config_default {
                Some(m) => m,
                None => Mode::Reveal,
            },
        },
    }
}

/// The mode in force.
pub fn resolve_mode(
    flag: Option<ModeFlag>,
    env_dry_run: Option<bool>,
    config_default: Option<Mode>,
) -> (r: Mode)
    ensures
        r == resolved_mode(flag, env_dry_run, config_default),
{
    if let Some(f) = flag {
        return match f {
            ModeFlag::Reveal => Mode::Reveal,
            ModeFlag::DryRun => Mode::DryRun,
        };
    }
    if let Some(env) = env_dry_run {
        return if env {
            Mode::DryRun
        } else {
            Mode::Reveal
        };
    }
    match config_default {
        Some(m) => m,
        None => Mode::Reveal,
    }
}

/// A flag decides alone: neither the environment nor the configuration changes
/// what it asks for.
pub proof fn a_flag_decides_alone(
    flag: ModeFlag,
    env: Option<bool>,
    config: Option<Mode>,
    other_env: Option<bool>,
    other_config: Option<Mode>,
)
    ensures
        resolved_mode(Some(flag), env, config) == resolved_mode(
            Some(flag),
            other_env,
            other_config,
        ),
{
}

/// What a value of `CACHE_WARDEN_DRY_RUN` says, once trimmed and in small
/// letters: nothing where it is blank.
pub open spec fn dry_run_setting(word: Seq<char>) -> Result<Option<bool>, Seq<char>> {
    if word.len() == 0 {
        Ok(None)
    } else if word == "1"@ || word == "true"@ || word == "yes"@ || word == "on"@ {
        Ok(Some(true))
    } else if word == "0"@ || word == "false"@ || word == "no"@ || word == "off"@ {
        Ok(Some(false))
    } else {
        Err(
            "CACHE_WARDEN_DRY_RUN must be a boolean (1/0/true/false/yes/no/on/off), got "@
                + text::debug_text(word),
        )
    }
}

/// What `CACHE_WARDEN_DRY_RUN` says: nothing where it is unset or blank. A
/// value that is no boolean is refused rather than taken for one.
pub fn env_dry_run_is_set(value: Option<String>) -> (r: Result<Option<bool>, String>)
    ensures
        match value {
            None => r == Ok::<Option<bool>, String>(None),
            Some(v) => match dry_run_setting(text::lowered(text::trimmed(v@))) {
                Ok(b) => r == Ok::<Option<bool>, String>(b),
                Err(message) => r matches Err(e) && e@ == message,
            },
        },
{
    match value {
        None => Ok(None),
        Some(v) => {
            let t = text::lowercase(text::trim(v.as_str()));
            let word = t.as_str();
            if word.is_empty() {
                Ok(None)
            } else if text::same_text(word, "1") || text::same_text(word, "true")
                || text::same_text(word, "yes") || text::same_text(word, "on") {
                Ok(Some(true))
            } else if text::same_text(word, "0") || text::same_text(word, "false")
                || text::same_text(word, "no") || text::same_text(word, "off") {
                Ok(Some(false))
            } else {
                Err(
                    "CACHE_WARDEN_DRY_RUN must be a boolean (1/0/true/false/yes/no/on/off), got ".to_owned().concat(
                        text::quoted(word).as_str(),
                    ),
                )
            }
        },
    }
}

} // verus!
