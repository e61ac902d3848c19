//! Laws of the command line: which command a line asks for, and when it asks for
//! help instead.

use vstd::prelude::*;

use crate::args;
use crate::cli;
use crate::cli::{CliError, Command, Group, HelpPage, InternalStep, Leaf, Route, Start};
use crate::help;
use crate::help::HelpSpec;
use crate::mode::Mode;
use crate::text;

verus! {

/// The group that a command belongs to.
pub open spec fn group_of(leaf: Leaf) -> Group {
    match leaf {
        Leaf::DaemonRun | Leaf::DaemonRegister | Leaf::DaemonUnregister | Leaf::DaemonStatus
        | Leaf::DaemonRestart => Group::Daemon,
        Leaf::ConfigShow | Leaf::ConfigPath | Leaf::ConfigEdit => Group::Config,
        Leaf::KvDefine | Leaf::KvSet | Leaf::KvGet | Leaf::KvDel | Leaf::KvList | Leaf::KvPin
        | Leaf::KvUnpin | Leaf::KvClaim | Leaf::KvUnclaim => Group::Kv,
        Leaf::VaultInit | Leaf::VaultUnlock | Leaf::VaultAddPasskey | Leaf::VaultLock
        | Leaf::VaultStatus => Group::Vault,
    }
}

/// The word by which a command is asked for.
pub open spec fn word_of(leaf: Leaf) -> Seq<char> {
    match leaf {
        Leaf::DaemonRun => "run"@,
        Leaf::DaemonRegister => "register"@,
        Leaf::DaemonUnregister => "unregister"@,
        Leaf::DaemonStatus => "status"@,
        Leaf::DaemonRestart => "restart"@,
        Leaf::ConfigShow => "show"@,
        Leaf::ConfigPath => "path"@,
        Leaf::ConfigEdit => "edit"@,
        Leaf::KvDefine => "define"@,
        Leaf::KvSet => "set"@,
        Leaf::KvGet => "get"@,
        Leaf::KvDel => "del"@,
        Leaf::KvList => "list"@,
        Leaf::KvPin => "pin"@,
        Leaf::KvUnpin => "unpin"@,
        Leaf::KvClaim => "claim"@,
        Leaf::KvUnclaim => "unclaim"@,
        Leaf::VaultInit => "init"@,
        Leaf::VaultUnlock => "unlock"@,
        Leaf::VaultAddPasskey => "add-passkey"@,
        Leaf::VaultLock => "lock"@,
        Leaf::VaultStatus => "status"@,
    }
}

proof fn words_of_a_group_differ(a: Leaf, b: Leaf)
    requires
        group_of(a) == group_of(b),
        word_of(a) == word_of(b),
    ensures
        a == b,
        word_of(a) != "--help"@,
{
    reveal_strlit("--help");
    reveal_strlit("run");
    reveal_strlit("register");
    reveal_strlit("unregister");
    reveal_strlit("status");
    reveal_strlit("restart");
    reveal_strlit("show");
    reveal_strlit("path");
    reveal_strlit("edit");
    reveal_strlit("define");
    reveal_strlit("set");
    reveal_strlit("get");
    reveal_strlit("del");
    reveal_strlit("list");
    reveal_strlit("pin");
    reveal_strlit("unpin");
    reveal_strlit("claim");
    reveal_strlit("unclaim");
    reveal_strlit("init");
    reveal_strlit("unlock");
    reveal_strlit("add-passkey");
    reveal_strlit("lock");
    let (x, y) = (word_of(a), word_of(b));
    assert(x.len() == y.len() && x[0] == y[0] && x[1] == y[1]);
    assert("--help"@[0] == '-' && x[0] != '-');
}

proof fn leaves_by_word(group: Group, word: Seq<char>, leaf: Leaf)
    ensures
        cli::leaf_named(group, word) == Some(leaf) <==> group_of(leaf) == group && word_of(leaf)
            == word,
{
    if let Some(found) = cli::leaf_named(group, word) {
        assert(group_of(found) == group && word_of(found) == word);
        if group_of(leaf) == group && word_of(leaf) == word {
            words_of_a_group_differ(found, leaf);
        }
    }
}

/// A line asks for the command whose group and word it names, be it to run it or
/// to be told about it; any other word is refused.
pub proof fn commands_by_name(group: Group, leaf: Leaf, rest: &[String], r: Result<Route, String>)
    requires
        rest@.len() > 0,
        rest@[0]@ != "--help"@,
        call_ensures(cli::dispatch_group, (group, rest), r),
    ensures
        group == group_of(leaf) && rest@[0]@ == word_of(leaf) <==> r == Ok::<Route, String>(
            Route::Leaf(leaf),
        ) || r == Ok::<Route, String>(Route::Show(HelpPage::Leaf(leaf))),
        r is Err ==> rest@[0]@ != word_of(leaf) || group != group_of(leaf),
{
    assert(rest.deep_view()[0] == rest@[0]@);
    leaves_by_word(group, rest@[0]@, leaf);
}

/// Options go on to the first argument that ends them, or to the end of the
/// line.
pub proof fn options_end(args: &[String], at_separator: bool, at_command: bool, r: usize)
    requires
        call_ensures(args::option_count, (args, at_separator, at_command), r),
    ensures
        r <= args@.len(),
        forall|i: int|
            0 <= i < r ==> !(at_separator && (#[trigger] args@[i])@ == "--"@) && !(at_command
                && args@[i]@ == "--command"@),
        r < args@.len() ==> (at_separator && args@[r as int]@ == "--"@) || (at_command
            && args@[r as int]@ == "--command"@),
{
    let all = args.deep_view();
    let n = options_end_somewhere(all, at_separator, at_command);
    assert(all.take(r as int).len() == r);
    assert(all.take(n).len() == n);
    assert(r == n);
    assert forall|i: int| 0 <= i < r implies !(at_separator && (#[trigger] args@[i])@ == "--"@)
        && !(at_command && args@[i]@ == "--command"@) by {
        assert(all[i] == args@[i]@);
    }
    if r < args@.len() {
        assert(all[r as int] == args@[r as int]@);
    }
}

proof fn options_end_somewhere(all: Seq<Seq<char>>, at_separator: bool, at_command: bool) -> (n:
    int)
    ensures
        0 <= n <= all.len(),
        args::before_end(all, at_separator, at_command) == all.take(n),
        forall|i: int|
            0 <= i < n ==> !(at_separator && #[trigger] all[i] == "--"@) && !(at_command && all[i]
                == "--command"@),
        n < all.len() ==> (at_separator && all[n] == "--"@) || (at_command && all[n]
            == "--command"@),
    decreases all.len(),
{
    if all.len() == 0 || args::ends_options(all[0], at_separator, at_command) {
        assert(all.take(0) =~= Seq::<Seq<char>>::empty());
        0
    } else {
        let n = options_end_somewhere(all.skip(1), at_separator, at_command);
        assert(seq![all[0]] + all.skip(1).take(n) =~= all.take(n + 1));
        assert forall|i: int| 0 <= i < n + 1 implies !(at_separator && #[trigger] all[i] == "--"@)
            && !(at_command && all[i] == "--command"@) by {
            if i > 0 {
                assert(all.skip(1)[i - 1] == all[i]);
            }
        }
        if n + 1 < all.len() {
            assert(all.skip(1)[n] == all[n + 1]);
        }
        n + 1
    }
}

/// The arguments before the `k`-th ask for help.
pub open spec fn asks_before(args: Seq<String>, k: int) -> bool {
    exists|i: int|
        0 <= i < k && ((#[trigger] args[i])@ == "--help"@ || args[i]@ == "-h"@)
}

/// A command is told about, and not run, exactly where one of its options asks
/// for help. In the `kv` group `--` ends the options, and in `kv define` also
/// `--command`.
pub proof fn help_is_asked_for_among_the_options(
    group: Group,
    leaf: Leaf,
    rest: &[String],
    tail: &[String],
    count: usize,
    r: Result<Route, String>,
)
    requires
        rest@.len() > 0,
        group == group_of(leaf),
        rest@[0]@ == word_of(leaf),
        tail@ == rest@.skip(1),
        call_ensures(
            args::option_count,
            (tail, group == Group::Kv, leaf == Leaf::KvDefine),
            count,
        ),
        call_ensures(cli::dispatch_group, (group, rest), r),
    ensures
        r == Ok::<Route, String>(
            if asks_before(tail@, count as int) {
                Route::Show(HelpPage::Leaf(leaf))
            } else {
                Route::Leaf(leaf)
            },
        ),
{
    words_of_a_group_differ(leaf, leaf);
    leaves_by_word(group, rest@[0]@, leaf);
    assert(rest.deep_view()[0] == rest@[0]@);
    assert(tail.deep_view() =~= rest.deep_view().skip(1));
    let seen = tail.deep_view().take(count as int);
    assert(cli::works_on_keys(leaf) == (group == Group::Kv));
    assert(seen == cli::leaf_options(leaf, rest.deep_view().skip(1)));
    if seen.contains("--help"@) {
        let i = choose|i: int| 0 <= i < seen.len() && seen[i] == "--help"@;
        assert(tail@[i]@ == "--help"@);
    }
    if seen.contains("-h"@) {
        let i = choose|i: int| 0 <= i < seen.len() && seen[i] == "-h"@;
        assert(tail@[i]@ == "-h"@);
    }
    if asks_before(tail@, count as int) {
        let i = choose|i: int|
            0 <= i < count && ((#[trigger] tail@[i])@ == "--help"@ || tail@[i]@ == "-h"@);
        assert(seen[i] == tail@[i]@);
    }
}

/// A group alone, or asked for help, shows its page.
pub proof fn a_group_alone_shows_its_page(
    group: Group,
    rest: &[String],
    r: Result<Route, String>,
)
    requires
        rest@.len() == 0 || rest@[0]@ == "--help"@,
        call_ensures(cli::dispatch_group, (group, rest), r),
    ensures
        r == Ok::<Route, String>(Route::Show(HelpPage::Group(group))),
{
    if rest@.len() > 0 {
        assert(rest.deep_view()[0] == rest@[0]@);
    }
}

/// The word by which a line asks for a command of the program.
pub open spec fn first_word(command: Command) -> Seq<char> {
    match command {
        Command::Help => "--help"@,
        Command::Version => "--version"@,
        Command::Group(Group::Daemon) => "daemon"@,
        Command::Group(Group::Config) => "config"@,
        Command::Group(Group::Kv) => "kv"@,
        Command::Group(Group::Vault) => "vault"@,
        Command::Ping => "ping"@,
        Command::Status => "status"@,
        Command::Run => "run"@,
        Command::Inject => "inject"@,
    }
}

proof fn first_words_differ(a: Command, b: Command)
    requires
        first_word(a) == first_word(b),
    ensures
        a == b,
{
    reveal_strlit("--help");
    reveal_strlit("--version");
    reveal_strlit("daemon");
    reveal_strlit("config");
    reveal_strlit("kv");
    reveal_strlit("vault");
    reveal_strlit("ping");
    reveal_strlit("status");
    reveal_strlit("run");
    reveal_strlit("inject");
    let (x, y) = (first_word(a), first_word(b));
    assert(x.len() == y.len() && x[0] == y[0]);
}

/// The first word of a line says what it asks for; an empty line asks for help,
/// and any other word is refused.
pub proof fn lines_by_their_first_word(
    args: &[String],
    command: Command,
    r: Result<Command, String>,
)
    requires
        call_ensures(cli::command, (args,), r),
    ensures
        args@.len() == 0 ==> r == Ok::<Command, String>(Command::Help),
        args@.len() > 0 ==> (args@[0]@ == first_word(command) <==> r == Ok::<Command, String>(
            command,
        )),
        r is Err ==> args@.len() > 0 && args@[0]@ != first_word(command),
{
    if args@.len() > 0 {
        assert(args.deep_view()[0] == args@[0]@);
        if let Ok(found) = r {
            assert(first_word(found) == args@[0]@);
            if args@[0]@ == first_word(command) {
                first_words_differ(found, command);
            }
        }
    }
}

/// The page of a command that has one of its own is headed by the line that asks
/// for the command.
pub proof fn pages_are_headed_by_their_command(leaf: Leaf, r: HelpSpec)
    requires
        leaf != Leaf::DaemonRestart,
        leaf != Leaf::KvClaim,
        leaf != Leaf::KvUnclaim,
        group_of(leaf) != Group::Vault,
        call_ensures(HelpPage::page, (HelpPage::Leaf(leaf),), r),
    ensures
        r.heading@ == "cache-warden "@ + first_word(Command::Group(group_of(leaf))) + " "@
            + word_of(leaf),
{
    reveal_strlit("cache-warden ");
    reveal_strlit(" ");
    reveal_strlit("daemon");
    reveal_strlit("config");
    reveal_strlit("kv");
    reveal_strlit("run");
    reveal_strlit("register");
    reveal_strlit("unregister");
    reveal_strlit("status");
    reveal_strlit("show");
    reveal_strlit("path");
    reveal_strlit("edit");
    reveal_strlit("define");
    reveal_strlit("set");
    reveal_strlit("get");
    reveal_strlit("del");
    reveal_strlit("list");
    reveal_strlit("pin");
    reveal_strlit("unpin");
    reveal_strlit("cache-warden daemon run");
    reveal_strlit("cache-warden daemon register");
    reveal_strlit("cache-warden daemon unregister");
    reveal_strlit("cache-warden daemon status");
    reveal_strlit("cache-warden config show");
    reveal_strlit("cache-warden config path");
    reveal_strlit("cache-warden config edit");
    reveal_strlit("cache-warden kv define");
    reveal_strlit("cache-warden kv set");
    reveal_strlit("cache-warden kv get");
    reveal_strlit("cache-warden kv del");
    reveal_strlit("cache-warden kv list");
    reveal_strlit("cache-warden kv pin");
    reveal_strlit("cache-warden kv unpin");
    assert(r@.heading == r.heading@);
    assert(r.heading@ =~= "cache-warden "@ + first_word(Command::Group(group_of(leaf))) + " "@
        + word_of(leaf));
}

/// A word names a command of a group exactly where it is the command's word.
pub proof fn words_name_commands(group: Group, word: &str, leaf: Leaf, r: Option<Leaf>)
    requires
        call_ensures(Group::leaf, (group, word), r),
    ensures
        r == Some(leaf) <==> group_of(leaf) == group && word_of(leaf) == word@,
{
    leaves_by_word(group, word@, leaf);
}

/// Without arguments the program shows its help; the helpers that it starts
/// itself with are known by the first argument alone.
pub proof fn programs_start_by_their_first_word(args: &[String], helper: &str, r: Start)
    requires
        call_ensures(cli::start, (args, helper), r),
    ensures
        r == Start::Help <==> args@.len() == 0,
        args@.len() > 0 ==> (r == Start::OpPrivateKey <==> args@[0]@ == helper@),
        args@.len() > 0 && args@[0]@ != helper@ ==> (r == Start::Internal <==> args@[0]@
            == "internal"@),
{
    if args@.len() > 0 {
        assert(args.deep_view()[0] == args@[0]@);
    }
}

/// The only internal command is the probe; whatever else is asked for fails, and
/// the failure names it.
pub proof fn the_probe_is_the_only_internal_command(args: &[String], r: InternalStep)
    requires
        call_ensures(cli::dispatch_internal, (args,), r),
    ensures
        r is FdaCheck <==> args@.len() > 0 && args@[0]@ == "fda-check"@,
        r matches InternalStep::Fail { notes } ==> notes@.len() > 0 && (args@.len() > 0
            ==> args@[0]@.is_suffix_of(notes@[0]@)),
{
    if args@.len() > 0 {
        assert(args.deep_view()[0] == args@[0]@);
    }
    if let InternalStep::Fail { notes } = r {
        assert(notes.deep_view().len() == notes@.len());
        assert(notes.deep_view()[0] == notes@[0]@);
        if args@.len() > 0 {
            let word = args@[0]@;
            let n = notes@[0]@;
            assert(n.skip(n.len() - word.len()) =~= word);
        }
    }
}

/// Help is asked for by `--help` or `-h`; where options can end, by one of these
/// before the first `--`.
pub proof fn how_help_is_asked_for(args: &[String], count: usize, anywhere: bool, r: bool)
    requires
        call_ensures(args::option_count, (args, true, false), count),
        call_ensures(help::wants_help, (args,), anywhere),
        call_ensures(cli::options_want_help, (args,), r),
    ensures
        anywhere <==> asks_before(args@, args@.len() as int),
        r <==> asks_before(args@, count as int),
{
    let all = args.deep_view();
    assert(all.take(all.len() as int) =~= all);
    asked_before(args, all.len() as int);
    asked_before(args, count as int);
}

proof fn asked_before(args: &[String], k: int)
    requires
        0 <= k <= args@.len(),
    ensures
        help::asks_for_help(args.deep_view().take(k)) <==> asks_before(args@, k),
{
    let seen = args.deep_view().take(k);
    if seen.contains("--help"@) {
        let i = choose|i: int| 0 <= i < seen.len() && seen[i] == "--help"@;
        assert(args@[i]@ == "--help"@);
    }
    if seen.contains("-h"@) {
        let i = choose|i: int| 0 <= i < seen.len() && seen[i] == "-h"@;
        assert(args@[i]@ == "-h"@);
    }
    if asks_before(args@, k) {
        let i = choose|i: int|
            0 <= i < k && ((#[trigger] args@[i])@ == "--help"@ || args@[i]@ == "-h"@);
        assert(seen[i] == args@[i]@);
    }
}

/// Wrong arguments are reported with the page that tells about the right ones,
/// any other failure by its message alone; an empty message is not printed.
pub proof fn failures_are_reported(
    e: &CliError,
    page: HelpSpec,
    shown: String,
    r: Vec<String>,
)
    requires
        call_ensures(CliError::report, (e,), r),
        *e matches CliError::Usage { page: p, .. } ==> call_ensures(HelpPage::page, (p,), page),
        call_ensures(HelpSpec::render, (&page,), shown),
    ensures
        *e matches CliError::Message(msg) ==> if msg@.len() == 0 {
            r@.len() == 0
        } else {
            r@.len() == 1 && r@[0]@ == "cache-warden: "@ + msg@
        },
        *e matches CliError::Usage { msg, .. } ==> if msg@.len() == 0 {
            r@.len() == 1 && r@[0]@ == shown@
        } else {
            r@.len() == 2 && r@[0]@ == "cache-warden: "@ + msg@ && r@[1]@ == shown@
        },
{
    assert(r.deep_view().len() == r@.len());
    if r@.len() > 0 {
        assert(r.deep_view()[0] == r@[0]@);
    }
    if r@.len() > 1 {
        assert(r.deep_view()[1] == r@[1]@);
    }
}

/// What was found stays, and a complaint is taken for one about the arguments or
/// for a plain one, as it is.
pub proof fn complaints_stay<T>(
    found: Result<T, String>,
    page: HelpPage,
    usage: Result<T, CliError>,
    plain: Result<T, CliError>,
)
    requires
        call_ensures(cli::or_usage::<T>, (found, page), usage),
        call_ensures(cli::or_message::<T>, (found,), plain),
    ensures
        found matches Ok(v) ==> usage == Ok::<T, CliError>(v) && plain == Ok::<T, CliError>(v),
        found matches Err(e) ==> (usage matches Err(CliError::Usage { msg, page: p }) && msg == e
            && p == page) && (plain matches Err(CliError::Message(m)) && m == e),
{
}

/// A dry run starts nothing where a reference could not be resolved, and names
/// every one that could not; a run that reveals values is not kept from starting.
pub proof fn dry_runs_need_their_references(
    mode: Mode,
    failures: &[String],
    n: u64,
    number: String,
    sep: &str,
    joined: String,
    r: Option<String>,
    told: Option<String>,
)
    requires
        n == failures@.len(),
        call_ensures(text::number_text, (n,), number),
        sep@ == ", "@,
        call_ensures(text::join, (failures, sep), joined),
        call_ensures(cli::run_refusal, (mode, failures), r),
        call_ensures(cli::unresolved_references, (failures,), told),
    ensures
        r is Some <==> mode == Mode::DryRun && failures@.len() > 0,
        told is Some <==> failures@.len() > 0,
        told matches Some(m) ==> m@ == "dry-run: "@ + number@
            + " reference(s) failed to resolve: "@ + joined@,
        r is Some ==> r->0@ == told->0@,
{
    assert(failures.deep_view().len() == failures@.len());
}

/// A command that is not there and one that cannot be run end with the codes
/// that a shell gives for them.
pub proof fn exit_codes_of_a_shell(program: &str, not_found: bool, error: &str, r: (i32, String))
    requires
        call_ensures(cli::exec_failure, (program, not_found, error), r),
    ensures
        not_found ==> r.0 == 127,
        !not_found ==> r.0 == 126,
        error@.is_suffix_of(r.1@),
{
    assert(r.1@.skip(r.1@.len() - error@.len()) =~= error@);
}

/// A complaint about `daemon unregister` is worded for `daemon status`: each
/// mention of the one, read from the left, becomes the other, and every other
/// character stays.
pub proof fn complaints_are_reworded(
    message: &str,
    rest: &str,
    c: char,
    r: String,
    s: String,
)
    requires
        call_ensures(cli::status_wording, (message,), r),
        call_ensures(cli::status_wording, (rest,), s),
    ensures
        message@.len() == 0 ==> r@.len() == 0,
        message@ == "daemon unregister"@ + rest@ ==> r@ == "daemon status"@ + s@,
        message@ == seq![c] + rest@ && !"daemon unregister"@.is_prefix_of(message@) ==> r@
            == seq![c] + s@,
{
    let from = "daemon unregister"@;
    reveal_strlit("daemon unregister");
    if message@ == from + rest@ {
        assert(message@.skip(from.len() as int) =~= rest@);
        assert(message@.take(from.len() as int) =~= from);
        assert(from.is_prefix_of(message@));
    }
    if message@ == seq![c] + rest@ {
        assert(message@.skip(1) =~= rest@);
    }
}

/// The page of a group is headed by the group's word, and that of a command by
/// the command's.
pub proof fn pages_are_headed_by_their_word(page: HelpPage, command: Command, r: HelpSpec)
    requires
        call_ensures(HelpPage::page, (page,), r),
        match page {
            HelpPage::Group(g) => g != Group::Vault && command == Command::Group(g),
            HelpPage::Run => command == Command::Run,
            HelpPage::Inject => command == Command::Inject,
            _ => false,
        },
    ensures
        r.heading@ == "cache-warden "@ + first_word(command),
{
    reveal_strlit("cache-warden ");
    reveal_strlit("daemon");
    reveal_strlit("config");
    reveal_strlit("kv");
    reveal_strlit("run");
    reveal_strlit("inject");
    reveal_strlit("cache-warden daemon");
    reveal_strlit("cache-warden config");
    reveal_strlit("cache-warden kv");
    reveal_strlit("cache-warden run");
    reveal_strlit("cache-warden inject");
    assert(r.heading@ =~= "cache-warden "@ + first_word(command));
}

} // verus!
