//! The command line: which command an argument list asks for, which help page
//! it shows instead, and how a failure is reported.

use vstd::prelude::*;
use vstd::slice::slice_subrange;

use crate::args;
use crate::help;
use crate::help::HelpSpec;
use crate::mode;
use crate::mode::Mode;
use crate::namespace;
use crate::text;

pub mod connection;
pub mod define;
pub mod get;
pub mod guard_ack;
pub mod render;

verus! {

/// The program's name.
pub const NAME: &'static str = "cache-warden";

/// What `--version` prints.
pub const VERSION_LINE: &'static str = "cache-warden 0.1.0";

/// A group of commands.
#[derive(Debug, Clone, Copy, PartialEq, Eq, Structural)]
pub enum Group {
    Daemon,
    Config,
    Kv,
    Vault,
}

/// A command of a group.
#[derive(Debug, Clone, Copy, PartialEq, Eq, Structural)]
pub enum Leaf {
    DaemonRun,
    DaemonRegister,
    DaemonUnregister,
    DaemonStatus,
    DaemonRestart,
    ConfigShow,
    ConfigPath,
    ConfigEdit,
    KvDefine,
    KvSet,
    KvGet,
    KvDel,
    KvList,
    KvPin,
    KvUnpin,
    KvClaim,
    KvUnclaim,
    VaultInit,
    VaultUnlock,
    VaultAddPasskey,
    VaultLock,
    VaultStatus,
}

/// What a help page is about.
#[derive(Debug, Clone, Copy, PartialEq, Eq, Structural)]
pub enum HelpPage {
    Top,
    Group(Group),
    Leaf(Leaf),
    Run,
    Inject,
}

/// What the page of a group says.
pub open spec fn group_page(group: Group) -> help::HelpText {
    match group {
        Group::Daemon => help::daemon_page(),
        Group::Config => help::config_page(),
        Group::Kv => help::kv_page(),
        Group::Vault => help::top_page(),
    }
}

/// What a page says. A command without a page of its own shows the page of its
/// group; the vault group shows the program's.
pub open spec fn page_of(page: HelpPage) -> help::HelpText {
    match page {
        HelpPage::Top => help::top_page(),
        HelpPage::Group(group) => group_page(group),
        HelpPage::Run => help::run_cmd_page(),
        HelpPage::Inject => help::inject_cmd_page(),
        HelpPage::Leaf(leaf) => match leaf {
            Leaf::DaemonRun => help::daemon_run_page(),
            Leaf::DaemonRegister => help::daemon_register_page(),
            Leaf::DaemonUnregister => help::daemon_unregister_page(),
            Leaf::DaemonStatus => help::daemon_status_page(),
            Leaf::DaemonRestart => help::daemon_page(),
            Leaf::ConfigShow => help::config_show_page(),
            Leaf::ConfigPath => help::config_path_page(),
            Leaf::ConfigEdit => help::config_edit_page(),
            Leaf::KvDefine => help::kv_define_page(),
            Leaf::KvSet => help::kv_set_page(),
            Leaf::KvGet => help::kv_get_page(),
            Leaf::KvDel => help::kv_del_page(),
            Leaf::KvList => help::kv_list_page(),
            Leaf::KvPin => help::kv_pin_page(),
            Leaf::KvUnpin => help::kv_unpin_page(),
            Leaf::KvClaim | Leaf::KvUnclaim => help::kv_page(),
            Leaf::VaultInit | Leaf::VaultUnlock | Leaf::VaultAddPasskey | Leaf::VaultLock
            | Leaf::VaultStatus => help::top_page(),
        },
    }
}

impl HelpPage {
    /// The page itself.
    pub fn page(self) -> (r: HelpSpec)
        ensures
            r@ == page_of(self),
    {
        match self {
            HelpPage::Top => help::top(),
            HelpPage::Group(group) => match group {
                Group::Daemon => help::daemon(),
                Group::Config => help::config(),
                Group::Kv => help::kv(),
                Group::Vault => help::top(),
            },
            HelpPage::Run => help::run_cmd(),
            HelpPage::Inject => help::inject_cmd(),
            HelpPage::Leaf(leaf) => match leaf {
                Leaf::DaemonRun => help::daemon_run(),
                Leaf::DaemonRegister => help::daemon_register(),
                Leaf::DaemonUnregister => help::daemon_unregister(),
                Leaf::DaemonStatus => help::daemon_status(),
                Leaf::DaemonRestart => help::daemon(),
                Leaf::ConfigShow => help::config_show(),
                Leaf::ConfigPath => help::config_path(),
                Leaf::ConfigEdit => help::config_edit(),
                Leaf::KvDefine => help::kv_define(),
                Leaf::KvSet => help::kv_set(),
                Leaf::KvGet => help::kv_get(),
                Leaf::KvDel => help::kv_del(),
                Leaf::KvList => help::kv_list(),
                Leaf::KvPin => help::kv_pin(),
                Leaf::KvUnpin => help::kv_unpin(),
                Leaf::KvClaim | Leaf::KvUnclaim => help::kv(),
                Leaf::VaultInit | Leaf::VaultUnlock | Leaf::VaultAddPasskey | Leaf::VaultLock
                | Leaf::VaultStatus => help::top(),
            },
        }
    }
}

/// The word that names a group.
pub open spec fn group_word(group: Group) -> Seq<char> {
    match group {
        Group::Daemon => "daemon"@,
        Group::Config => "config"@,
        Group::Kv => "kv"@,
        Group::Vault => "vault"@,
    }
}

/// The command of a group that a word names.
pub open spec fn leaf_named(group: Group, word: Seq<char>) -> Option<Leaf> {
    match group {
        Group::Daemon => if word == "run"@ {
            Some(Leaf::DaemonRun)
        } else if word == "register"@ {
            Some(Leaf::DaemonRegister)
        } else if word == "unregister"@ {
            Some(Leaf::DaemonUnregister)
        } else if word == "status"@ {
            Some(Leaf::DaemonStatus)
        } else if word == "restart"@ {
            Some(Leaf::DaemonRestart)
        } else {
            None
        },
        Group::Config => if word == "show"@ {
            Some(Leaf::ConfigShow)
        } else if word == "path"@ {
            Some(Leaf::ConfigPath)
        } else if word == "edit"@ {
            Some(Leaf::ConfigEdit)
        } else {
            None
        },
        Group::Kv => if word == "define"@ {
            Some(Leaf::KvDefine)
        } else if word == "set"@ {
            Some(Leaf::KvSet)
        } else if word == "get"@ {
            Some(Leaf::KvGet)
        } else if word == "del"@ {
            Some(Leaf::KvDel)
        } else if word == "list"@ {
            Some(Leaf::KvList)
        } else if word == "pin"@ {
            Some(Leaf::KvPin)
        } else if word == "unpin"@ {
            Some(Leaf::KvUnpin)
        } else if word == "claim"@ {
            Some(Leaf::KvClaim)
        } else if word == "unclaim"@ {
            Some(Leaf::KvUnclaim)
        } else {
            None
        },
        Group::Vault => if word == "init"@ {
            Some(Leaf::VaultInit)
        } else if word == "unlock"@ {
            Some(Leaf::VaultUnlock)
        } else if word == "add-passkey"@ {
            Some(Leaf::VaultAddPasskey)
        } else if word == "lock"@ {
            Some(Leaf::VaultLock)
        } else if word == "status"@ {
            Some(Leaf::VaultStatus)
        } else {
            None
        },
    }
}

impl Group {
    fn word(self) -> (r: &'static str)
        ensures
            r@ == group_word(self),
    {
        match self {
            Group::Daemon => "daemon",
            Group::Config => "config",
            Group::Kv => "kv",
            Group::Vault => "vault",
        }
    }

    /// The command of this group that `word` names.
    pub fn leaf(self, word: &str) -> (r: Option<Leaf>)
        ensures
            r == leaf_named(self, word@),
    {
        match self {
            Group::Daemon => if text::same_text(word, "run") {
                Some(Leaf::DaemonRun)
            } else if text::same_text(word, "register") {
                Some(Leaf::DaemonRegister)
            } else if text::same_text(word, "unregister") {
                Some(Leaf::DaemonUnregister)
            } else if text::same_text(word, "status") {
                Some(Leaf::DaemonStatus)
            } else if text::same_text(word, "restart") {
                Some(Leaf::DaemonRestart)
            } else {
                None
            },
            Group::Config => if text::same_text(word, "show") {
                Some(Leaf::ConfigShow)
            } else if text::same_text(word, "path") {
                Some(Leaf::ConfigPath)
            } else if text::same_text(word, "edit") {
                Some(Leaf::ConfigEdit)
            } else {
                None
            },
            Group::Kv => if text::same_text(word, "define") {
                Some(Leaf::KvDefine)
            } else if text::same_text(word, "set") {
                Some(Leaf::KvSet)
            } else if text::same_text(word, "get") {
                Some(Leaf::KvGet)
            } else if text::same_text(word, "del") {
                Some(Leaf::KvDel)
            } else if text::same_text(word, "list") {
                Some(Leaf::KvList)
            } else if text::same_text(word, "pin") {
                Some(Leaf::KvPin)
            } else if text::same_text(word, "unpin") {
                Some(Leaf::KvUnpin)
            } else if text::same_text(word, "claim") {
                Some(Leaf::KvClaim)
            } else if text::same_text(word, "unclaim") {
                Some(Leaf::KvUnclaim)
            } else {
                None
            },
            Group::Vault => if text::same_text(word, "init") {
                Some(Leaf::VaultInit)
            } else if text::same_text(word, "unlock") {
                Some(Leaf::VaultUnlock)
            } else if text::same_text(word, "add-passkey") {
                Some(Leaf::VaultAddPasskey)
            } else if text::same_text(word, "lock") {
                Some(Leaf::VaultLock)
            } else if text::same_text(word, "status") {
                Some(Leaf::VaultStatus)
            } else {
                None
            },
        }
    }
}

/// What the arguments behind a group's name ask for.
#[derive(Debug, Clone, Copy, PartialEq, Eq, Structural)]
pub enum Route {
    Show(HelpPage),
    Leaf(Leaf),
}

/// The complaint about a word that names no command of a group.
pub open spec fn unknown_subcommand(group: Group, word: Seq<char>) -> Seq<char> {
    "unknown "@ + group_word(group) + " subcommand: "@ + word + " (try `cache-warden "@
        + group_word(group) + " --help`)"@
}

/// Whether the command is one of the `kv` group.
pub open spec fn works_on_keys(leaf: Leaf) -> bool {
    match leaf {
        Leaf::KvDefine | Leaf::KvSet | Leaf::KvGet | Leaf::KvDel | Leaf::KvList | Leaf::KvPin
        | Leaf::KvUnpin | Leaf::KvClaim | Leaf::KvUnclaim => true,
        _ => false,
    }
}

/// The arguments of a command that may be options. In the `kv` group `--` ends
/// them, and in `kv define` also `--command`, which takes everything behind it.
pub open spec fn leaf_options(leaf: Leaf, args: Seq<Seq<char>>) -> Seq<Seq<char>> {
    args::before_end(args, works_on_keys(leaf), leaf == Leaf::KvDefine)
}

impl Leaf {
    fn works_on_keys(self) -> (r: bool)
        ensures
            r == works_on_keys(self),
    {
        match self {
            Leaf::KvDefine | Leaf::KvSet | Leaf::KvGet | Leaf::KvDel | Leaf::KvList | Leaf::KvPin
            | Leaf::KvUnpin | Leaf::KvClaim | Leaf::KvUnclaim => true,
            _ => false,
        }
    }
}

fn options_ask(args: &[String], at_separator: bool, at_command: bool) -> (r: bool)
    ensures
        r == help::asks_for_help(args::before_end(args.deep_view(), at_separator, at_command)),
{
    let count = args::option_count(args, at_separator, at_command);
    let options = slice_subrange(args, 0, count);
    assert(options.deep_view() =~= args.deep_view().take(count as int));
    help::wants_help(options)
}

/// Whether an argument before `--` asks for help. What stands behind it does not.
pub fn options_want_help(args: &[String]) -> (r: bool)
    ensures
        r == help::asks_for_help(args::options_of(args.deep_view())),
{
    options_ask(args, true, false)
}

/// What the arguments behind a group's name ask for: the group's page where
/// there are none or `--help` leads, the command's page where one of its options
/// asks for help, else the command.
pub open spec fn group_route(group: Group, rest: Seq<Seq<char>>) -> Result<Route, Seq<char>> {
    if rest.len() == 0 || rest[0] == "--help"@ {
        Ok(Route::Show(HelpPage::Group(group)))
    } else {
        match leaf_named(group, rest[0]) {
            None => Err(unknown_subcommand(group, rest[0])),
            Some(leaf) => if help::asks_for_help(leaf_options(leaf, rest.skip(1))) {
                Ok(Route::Show(HelpPage::Leaf(leaf)))
            } else {
                Ok(Route::Leaf(leaf))
            },
        }
    }
}

/// What the arguments behind a group's name ask for.
pub fn dispatch_group(group: Group, rest: &[String]) -> (r: Result<Route, String>)
    ensures
        match group_route(group, rest.deep_view()) {
            Ok(route) => r == Ok::<Route, String>(route),
            Err(message) => r matches Err(e) && e@ == message,
        },
{
    if rest.len() == 0 {
        return Ok(Route::Show(HelpPage::Group(group)));
    }
    let word = rest[0].as_str();
    assert(rest.deep_view()[0] == word@);
    if text::same_text(word, "--help") {
        return Ok(Route::Show(HelpPage::Group(group)));
    }
    match group.leaf(word) {
        None => Err(
            "unknown ".to_owned().concat(group.word()).concat(" subcommand: ").concat(word).concat(
                " (try `cache-warden ",
            ).concat(group.word()).concat(" --help`)"),
        ),
        Some(leaf) => {
            let tail = slice_subrange(rest, 1, rest.len());
            assert(tail.deep_view() =~= rest.deep_view().skip(1));
            if options_ask(tail, leaf.works_on_keys(), leaf == Leaf::KvDefine) {
                Ok(Route::Show(HelpPage::Leaf(leaf)))
            } else {
                Ok(Route::Leaf(leaf))
            }
        },
    }
}

/// `--help` never runs a command: wherever it stands among the options of a
/// command, the command is not carried out.
pub proof fn asking_for_help_runs_nothing(group: Group, rest: Seq<Seq<char>>)
    requires
        rest.len() > 0,
        rest[0] == "--help"@ || (leaf_named(group, rest[0]) matches Some(leaf) && leaf_options(
            leaf,
            rest.skip(1),
        ).contains("--help"@)),
    ensures
        !(group_route(group, rest) matches Ok(Route::Leaf(_))),
{
}

/// Outside the `kv` group `--help` shows a page wherever it stands.
pub proof fn help_is_found_anywhere_outside_kv(group: Group, rest: Seq<Seq<char>>)
    requires
        group != Group::Kv,
        rest.contains("--help"@),
    ensures
        !(group_route(group, rest) matches Ok(Route::Leaf(_))),
{
    if rest[0] != "--help"@ {
        if let Some(leaf) = leaf_named(group, rest[0]) {
            let i = choose|i: int| 0 <= i < rest.len() && rest[i] == "--help"@;
            args::nothing_ends(rest.skip(1));
            assert(rest.skip(1)[i - 1] == "--help"@);
        }
    }
}

/// In the `kv` group nothing behind `--` is an option, and in `kv define` nothing
/// behind `--command`: what stands there never turns a command into a request for
/// help.
pub proof fn what_is_taken_as_it_is_asks_for_no_help(
    word: Seq<char>,
    options: Seq<Seq<char>>,
    end: Seq<char>,
    taken: Seq<Seq<char>>,
)
    requires
        word != "--help"@,
        end == "--"@ || (end == "--command"@ && word == "define"@),
        !help::asks_for_help(options),
    ensures
        !(group_route(Group::Kv, seq![word] + options + seq![end] + taken) matches Ok(
            Route::Show(_),
        )),
{
    let rest = seq![word] + options + seq![end] + taken;
    assert(rest.skip(1) =~= options + seq![end] + taken);
    if let Some(leaf) = leaf_named(Group::Kv, word) {
        args::options_stop_at_the_end(options, end, taken, leaf == Leaf::KvDefine);
        let seen = leaf_options(leaf, rest.skip(1));
        assert forall|w: Seq<char>| #[trigger] seen.contains(w) implies options.contains(w) by {
            let k = choose|k: int| 0 <= k < seen.len() && seen[k] == w;
            assert(options[k] == w);
        }
    }
}

/// What the first argument asks for before any flag is read. The helpers that
/// the program starts itself with take their arguments as they are.
#[derive(Debug, Clone, Copy, PartialEq, Eq, Structural)]
pub enum Start {
    Help,
    OpPrivateKey,
    Internal,
    Command,
}

/// What the first argument asks for, where `op_subcommand` names the helper
/// that fetches a private key.
pub fn start(args: &[String], op_subcommand: &str) -> (r: Start)
    ensures
        r == if args.deep_view().len() == 0 {
            Start::Help
        } else if args.deep_view()[0] == op_subcommand@ {
            Start::OpPrivateKey
        } else if args.deep_view()[0] == "internal"@ {
            Start::Internal
        } else {
            Start::Command
        },
{
    if args.len() == 0 {
        Start::Help
    } else if text::same_text(args[0].as_str(), op_subcommand) {
        Start::OpPrivateKey
    } else if text::same_text(args[0].as_str(), "internal") {
        Start::Internal
    } else {
        Start::Command
    }
}

/// A command of the program.
#[derive(Debug, Clone, Copy, PartialEq, Eq, Structural)]
pub enum Command {
    Help,
    Version,
    Group(Group),
    Ping,
    Status,
    Run,
    Inject,
}

/// The command that the arguments left over by the global flags ask for.
pub open spec fn command_named(args: Seq<Seq<char>>) -> Result<Command, Seq<char>> {
    if args.len() == 0 || args[0] == "--help"@ {
        Ok(Command::Help)
    } else if args[0] == "--version"@ {
        Ok(Command::Version)
    } else if args[0] == "daemon"@ {
        Ok(Command::Group(Group::Daemon))
    } else if args[0] == "config"@ {
        Ok(Command::Group(Group::Config))
    } else if args[0] == "ping"@ {
        Ok(Command::Ping)
    } else if args[0] == "status"@ {
        Ok(Command::Status)
    } else if args[0] == "kv"@ {
        Ok(Command::Group(Group::Kv))
    } else if args[0] == "vault"@ {
        Ok(Command::Group(Group::Vault))
    } else if args[0] == "run"@ {
        Ok(Command::Run)
    } else if args[0] == "inject"@ {
        Ok(Command::Inject)
    } else {
        Err("unknown command: "@ + args[0] + " (try `cache-warden --help`)"@)
    }
}

/// The command that the arguments left over by the global flags ask for.
pub fn command(args: &[String]) -> (r: Result<Command, String>)
    ensures
        match command_named(args.deep_view()) {
            Ok(c) => r == Ok::<Command, String>(c),
            Err(message) => r matches Err(e) && e@ == message,
        },
{
    if args.len() == 0 {
        return Ok(Command::Help);
    }
    let word = args[0].as_str();
    assert(args.deep_view()[0] == word@);
    if text::same_text(word, "--help") {
        Ok(Command::Help)
    } else if text::same_text(word, "--version") {
        Ok(Command::Version)
    } else if text::same_text(word, "daemon") {
        Ok(Command::Group(Group::Daemon))
    } else if text::same_text(word, "config") {
        Ok(Command::Group(Group::Config))
    } else if text::same_text(word, "ping") {
        Ok(Command::Ping)
    } else if text::same_text(word, "status") {
        Ok(Command::Status)
    } else if text::same_text(word, "kv") {
        Ok(Command::Group(Group::Kv))
    } else if text::same_text(word, "vault") {
        Ok(Command::Group(Group::Vault))
    } else if text::same_text(word, "run") {
        Ok(Command::Run)
    } else if text::same_text(word, "inject") {
        Ok(Command::Inject)
    } else {
        Err("unknown command: ".to_owned().concat(word).concat(" (try `cache-warden --help`)"))
    }
}

/// What `internal` is to do.
#[derive(Debug, Clone, PartialEq, Eq)]
pub enum InternalStep {
    /// Probe the authorization; the arguments behind the name are the probe's.
    FdaCheck,
    /// Print these notes and fail.
    Fail { notes: Vec<String> },
}

/// What `internal` is to do with `args`.
pub fn dispatch_internal(args: &[String]) -> (r: InternalStep)
    ensures
        ({
            let all = args.deep_view();
            if all.len() == 0 {
                r matches InternalStep::Fail { notes } && notes.deep_view() == seq![
                    "cache-warden internal: missing subcommand"@,
                    "Available: fda-check"@,
                ]
            } else if all[0] == "fda-check"@ {
                r is FdaCheck
            } else {
                r matches InternalStep::Fail { notes } && notes.deep_view() == seq![
                    "cache-warden internal: unknown subcommand: "@ + all[0],
                ]
            }
        }),
{
    let mut notes: Vec<String> = Vec::new();
    assert(notes.deep_view() =~= Seq::<Seq<char>>::empty());
    if args.len() == 0 {
        text::push_text(&mut notes, "cache-warden internal: missing subcommand".to_owned());
        text::push_text(&mut notes, "Available: fda-check".to_owned());
        return InternalStep::Fail { notes };
    }
    let word = args[0].as_str();
    assert(args.deep_view()[0] == word@);
    if text::same_text(word, "fda-check") {
        InternalStep::FdaCheck
    } else {
        text::push_text(
            &mut notes,
            "cache-warden internal: unknown subcommand: ".to_owned().concat(word),
        );
        InternalStep::Fail { notes }
    }
}

/// What a failed probe prints.
pub fn fda_check_note(error: &str) -> (r: String)
    ensures
        r@ == "cache-warden internal fda-check: "@ + error@,
{
    "cache-warden internal fda-check: ".to_owned().concat(error)
}

/// Why a command failed.
#[derive(Debug, Clone, PartialEq, Eq)]
pub enum CliError {
    /// A message.
    Message(String),
    /// The arguments are wrong: the message, and the page that says what they
    /// may be.
    Usage { msg: String, page: HelpPage },
}

/// `r`, with its error taken for wrong arguments of the command that `page` is
/// about.
pub fn or_usage<T>(r: Result<T, String>, page: HelpPage) -> (out: Result<T, CliError>)
    ensures
        out == match r {
            Ok(v) => Ok::<T, CliError>(v),
            Err(msg) => Err::<T, CliError>(CliError::Usage { msg, page }),
        },
{
    match r {
        Ok(v) => Ok(v),
        Err(msg) => Err(CliError::Usage { msg, page }),
    }
}

/// `r`, with its error taken for a plain message.
pub fn or_message<T>(r: Result<T, String>) -> (out: Result<T, CliError>)
    ensures
        out == match r {
            Ok(v) => Ok::<T, CliError>(v),
            Err(msg) => Err::<T, CliError>(CliError::Message(msg)),
        },
{
    match r {
        Ok(v) => Ok(v),
        Err(msg) => Err(CliError::Message(msg)),
    }
}

/// What is printed about a failure: the message behind the program's name,
/// unless it is empty, and the page where the arguments were wrong.
pub open spec fn failure_report(e: CliError) -> Seq<Seq<char>> {
    let (msg, page) = match e {
        CliError::Message(msg) => (msg@, Seq::empty()),
        CliError::Usage { msg, page } => (msg@, seq![help::page_text(page_of(page))]),
    };
    if msg.len() == 0 {
        page
    } else {
        seq!["cache-warden: "@ + msg] + page
    }
}

impl CliError {
    /// What is printed about the failure.
    pub fn report(&self) -> (r: Vec<String>)
        ensures
            r.deep_view() == failure_report(*self),
    {
        let mut out: Vec<String> = Vec::new();
        assert(out.deep_view() =~= Seq::<Seq<char>>::empty());
        let msg = match self {
            CliError::Message(msg) => msg,
            CliError::Usage { msg, .. } => msg,
        };
        if !msg.as_str().is_empty() {
            text::push_text(&mut out, "cache-warden: ".to_owned().concat(msg.as_str()));
        }
        if let CliError::Usage { page, .. } = self {
            text::push_text(&mut out, page.page().render());
        }
        assert(out.deep_view() =~= failure_report(*self));
        out
    }
}

/// The namespace in force and the arguments left over by `--namespace`. A blank
/// value of `CACHE_WARDEN_NAMESPACE` counts as not given.
pub open spec fn namespace_context(
    args: Seq<Seq<char>>,
    env: Option<Seq<char>>,
    config: Option<Seq<char>>,
) -> Result<(Seq<char>, Seq<Seq<char>>), Seq<char>> {
    match namespace::namespace_scan(args, None) {
        Err(e) => Err(e),
        Ok((flag, rest)) => match namespace::resolved_namespace(
            flag,
            namespace::env_setting(env),
            config,
        ) {
            Err(e) => Err(e),
            Ok(ns) => Ok((ns, rest)),
        },
    }
}

/// The namespace in force and the arguments left over, from `args`, the value of
/// `CACHE_WARDEN_NAMESPACE` and the config.
pub fn namespace_in_force(args: &[String], env: Option<String>, config: Option<String>) -> (r:
    Result<(String, Vec<String>), String>)
    ensures
        match namespace_context(args.deep_view(), env.deep_view(), config.deep_view()) {
            Ok((ns, rest)) => r matches Ok(found) && found.0@ == ns && found.1.deep_view() == rest,
            Err(message) => r matches Err(e) && e@ == message,
        },
{
    match namespace::take_namespace_flag(args) {
        Err(e) => Err(e),
        Ok((flag, rest)) => match namespace::resolve_namespace(
            flag,
            namespace::env_namespace(env),
            config,
        ) {
            Err(e) => Err(e),
            Ok(ns) => Ok((ns, rest)),
        },
    }
}

/// The mode in force, from the flag, the value of `CACHE_WARDEN_DRY_RUN` and
/// the config. A value that is no boolean is refused even beside a flag.
pub open spec fn mode_context(
    flag: Option<mode::ModeFlag>,
    env: Option<Seq<char>>,
    config: Option<Mode>,
) -> Result<Mode, Seq<char>> {
    match env {
        None => Ok(mode::resolved_mode(flag, None, config)),
        Some(v) => match mode::dry_run_setting(text::lowered(text::trimmed(v))) {
            Ok(setting) => Ok(mode::resolved_mode(flag, setting, config)),
            Err(e) => Err(e),
        },
    }
}

/// The mode in force, from the flag, the value of `CACHE_WARDEN_DRY_RUN` and
/// the config.
pub fn resolve_cli_mode(
    flag: Option<mode::ModeFlag>,
    env: Option<String>,
    config: Option<Mode>,
) -> (r: Result<Mode, String>)
    ensures
        match mode_context(flag, env.deep_view(), config) {
            Ok(m) => r == Ok::<Mode, String>(m),
            Err(message) => r matches Err(e) && e@ == message,
        },
{
    match mode::env_dry_run_is_set(env) {
        Err(e) => Err(e),
        Ok(setting) => Ok(mode::resolve_mode(flag, setting, config)),
    }
}

/// A complaint of `daemon unregister` about its options, worded for `daemon
/// status`, which takes the same ones.
pub fn status_wording(message: &str) -> (r: String)
    ensures
        r@ == text::replaced(message@, "daemon unregister"@, "daemon status"@),
{
    proof {
        reveal_strlit("daemon unregister");
    }
    text::replace(message, "daemon unregister", "daemon status")
}

/// The complaint about references that a dry run could not resolve.
pub open spec fn unresolved(failures: Seq<Seq<char>>) -> Seq<char> {
    "dry-run: "@ + text::decimal(failures.len()) + " reference(s) failed to resolve: "@
        + text::joined(failures, ", "@)
}

/// The complaint about references that could not be resolved, where there are
/// any.
pub fn unresolved_references(failures: &[String]) -> (r: Option<String>)
    ensures
        failures@.len() == 0 ==> r is None,
        failures@.len() > 0 ==> r.deep_view() == Some(unresolved(failures.deep_view())),
{
    if failures.len() == 0 {
        None
    } else {
        Some(
            "dry-run: ".to_owned().concat(text::number_text(failures.len() as u64).as_str()).concat(
                " reference(s) failed to resolve: ",
            ).concat(text::join(failures, ", ").as_str()),
        )
    }
}

/// Why `run` does not start its command: a dry run in which a reference could
/// not be resolved.
pub fn run_refusal(mode: Mode, failures: &[String]) -> (r: Option<String>)
    ensures
        mode == Mode::Reveal || failures@.len() == 0 ==> r is None,
        mode == Mode::DryRun && failures@.len() > 0 ==> r.deep_view() == Some(
            unresolved(failures.deep_view()),
        ),
{
    if mode.is_dry_run() {
        unresolved_references(failures)
    } else {
        None
    }
}

/// The warning about an argument of the command that looks like a reference.
pub fn argv_warning(token: &str) -> (r: String)
    ensures
        r@ == "cache-warden: warning: "@ + text::debug_text(token@)
            + " looks like a secret reference but argv is not an injection face (it is passed verbatim); use --env NAME=cache-warden://KEY instead"@,
{
    "cache-warden: warning: ".to_owned().concat(text::quoted(token).as_str()).concat(
        " looks like a secret reference but argv is not an injection face (it is passed verbatim); use --env NAME=cache-warden://KEY instead",
    )
}

/// The exit code and the note for a command that could not be started.
pub fn exec_failure(program: &str, not_found: bool, error: &str) -> (r: (i32, String))
    ensures
        r.0 == if not_found {
            127
        } else {
            126int
        },
        r.1@ == "cache-warden: cannot exec "@ + text::debug_text(program@) + ": "@ + error@,
{
    let code: i32 = if not_found {
        127
    } else {
        126
    };
    (
        code,
        "cache-warden: cannot exec ".to_owned().concat(text::quoted(program).as_str()).concat(
            ": ",
        ).concat(error),
    )
}

} // verus!
