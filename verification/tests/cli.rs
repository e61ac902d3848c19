//! The command line: routing, the shapes of replies, and guarded writes.

use cache_warden_cli::cli::connection::Connection;
use cache_warden_cli::cli::define::{
    add_file, define_attempt, define_report, define_request, register_defs, register_reply,
    run_define_defs, DefineAttempt,
};
use cache_warden_cli::cli::get::{get_output, get_request, mask, GetOutput};
use cache_warden_cli::cli::guard_ack::{expect_guard_ack_with_sender, needs_guard_ack, AckError};
use cache_warden_cli::cli::render::{
    error_kind_str, format_entry_attrs, kv_list_line, list_output, render_kv_list, render_response,
    status_in_namespace, vault_output, Line, ListOutput, VaultOutput,
};
use cache_warden_cli::cli::{
    argv_warning, command, dispatch_group, dispatch_internal, exec_failure, fda_check_note,
    namespace_in_force, options_want_help, or_message, or_usage, resolve_cli_mode, run_refusal,
    start, status_wording, unresolved_references, CliError, Command, Group, HelpPage, InternalStep,
    Leaf, Route, Start, NAME, VERSION_LINE,
};
use cache_warden_cli::config::KvDefinition;
use cache_warden_cli::help;
use cache_warden_cli::mode::{Mode, ModeFlag};
use cache_warden_cli::wire::{
    CommandSpecWire, EntryInfo, ErrorKind, GuardConstraintWire, OkBody, OkPayload, OpSpecWire,
    Request as WireRequest, Response as WireResponse, SetSource, SourceSpecWire, ValueMetaWire,
    VaultStateWire, VaultStatusWire,
};

/// What a failed guarded write says.
fn text_of(e: AckError) -> String {
    match e {
        AckError::Message(m) => m,
        AckError::Unexpected(p) => panic!("unexpected payload {p:?}"),
    }
}

fn s(xs: &[&str]) -> Vec<String> {
    xs.iter().map(|x| x.to_string()).collect()
}

fn base_entry() -> EntryInfo {
    EntryInfo {
        name: "default/K".into(),
        state: "active".into(),
        regenerable: false,
        defined: false,
        has_value: true,
        pin_remaining_secs: None,
        value_type: None,
        source: None,
        backoff_until_secs: None,
        guard_summary: None,
        version: None,
        claim_expires_in_secs: None,
        locked: false,
    }
}

#[test]
fn format_entry_attrs_no_backoff_omits_backoff_field() {
    let e = base_entry();
    let attrs = format_entry_attrs(&e);
    let joined = attrs.join(", ");
    assert!(
        !joined.contains("backoff"),
        "no backoff_until_secs must not show backoff: {joined}"
    );
}

#[test]
fn format_entry_attrs_backoff_zero_omits_backoff_field() {
    let mut e = base_entry();
    e.backoff_until_secs = Some(0);
    let attrs = format_entry_attrs(&e);
    let joined = attrs.join(", ");
    assert!(
        !joined.contains("backoff"),
        "backoff_until_secs=0 (expired) must not show backoff: {joined}"
    );
}

#[test]
fn format_entry_attrs_backoff_active_shows_remaining_seconds() {
    let mut e = base_entry();
    e.backoff_until_secs = Some(3);
    let attrs = format_entry_attrs(&e);
    let joined = attrs.join(", ");
    assert!(
        joined.contains("backoff: 3s"),
        "backoff_until_secs=3 must show 'backoff: 3s': {joined}"
    );
}

/// an entry whose daemon populated `guard_summary` gets a
/// `guard: <labels>` attr in status; `None` (older daemon) omits
/// the attr entirely rather than misleadingly asserting no guard.
#[test]
fn format_entry_attrs_shows_guard_summary_when_populated() {
    let mut e = base_entry();
    e.guard_summary = Some(vec!["same-user".into(), "command (git) (weak)".into()]);
    let attrs = format_entry_attrs(&e);
    let joined = attrs.join(", ");
    assert!(
        joined.contains("guard: same-user, command (git) (weak)"),
        "{joined}"
    );

    let mut e2 = base_entry();
    e2.guard_summary = None;
    let attrs2 = format_entry_attrs(&e2);
    assert!(
        !attrs2.iter().any(|a| a.starts_with("guard:")),
        "None (unknown) must not surface a guard attr: {attrs2:?}"
    );
}

#[test]
fn format_entry_attrs_pin_and_backoff_both_shown() {
    let mut e = base_entry();
    e.pin_remaining_secs = Some(60);
    e.backoff_until_secs = Some(5);
    let attrs = format_entry_attrs(&e);
    let joined = attrs.join(", ");
    assert!(joined.contains("pinned 60s"), "pin must be shown: {joined}");
    assert!(
        joined.contains("backoff: 5s"),
        "backoff must be shown: {joined}"
    );
}

/// The line of `kv list` about one key.
fn select_kv_list_line(key: &str, entry: Option<&EntryInfo>, ns: &str, all: bool) -> Option<String> {
    kv_list_line(key, entry, ns, all)
}

#[test]
fn kv_list_strips_namespace_prefix_by_default() {
    let line = select_kv_list_line("default/K", None, "default", false);
    assert_eq!(line, Some("K".to_string()));
}

#[test]
fn kv_list_all_keeps_composed_name() {
    let line = select_kv_list_line("default/K", None, "default", true);
    assert_eq!(line, Some("default/K".to_string()));
}

#[test]
fn kv_list_filters_out_other_namespaces_unless_all() {
    let line = select_kv_list_line("other/K", None, "default", false);
    assert_eq!(line, None, "other-namespace keys hidden without --all");
}

#[test]
fn kv_list_renders_backoff_hint_when_active() {
    let mut e = base_entry();
    e.name = "default/K".into();
    e.backoff_until_secs = Some(3);
    let line = select_kv_list_line("default/K", Some(&e), "default", false);
    assert_eq!(line.as_deref(), Some("K  backoff: 3s"));
}

#[test]
fn kv_list_omits_backoff_hint_when_zero_or_absent() {
    let mut e = base_entry();
    e.name = "default/K".into();
    e.backoff_until_secs = Some(0);
    let line = select_kv_list_line("default/K", Some(&e), "default", false);
    assert_eq!(line.as_deref(), Some("K"));

    e.backoff_until_secs = None;
    let line = select_kv_list_line("default/K", Some(&e), "default", false);
    assert_eq!(line.as_deref(), Some("K"));
}

fn guarded_set_req() -> WireRequest {
    WireRequest::KvSet {
        key: "default/K".into(),
        source: SetSource::Static {
            value_b64: String::new(),
        },
        soft_ttl_secs: None,
        hard_ttl_secs: None,
        guard_constraints: vec![GuardConstraintWire::SameUser],
        expected_version: None,
        claim_token: None,
        persist: None,
    }
}

/// A recording sender: pushes each request into `history`, then pops
/// the next canned response from `queue`. Panics if the queue runs dry
/// (unexpected extra send) or a leftover response remains (unsent).
fn make_sender<'a>(
    history: &'a std::cell::RefCell<Vec<WireRequest>>,
    queue: &'a std::cell::RefCell<std::collections::VecDeque<WireResponse>>,
) -> Sender<impl FnMut(&WireRequest) -> Result<WireResponse, String> + 'a> {
    Sender(move |req: &WireRequest| {
        history.borrow_mut().push(req.clone());
        match queue.borrow_mut().pop_front() {
            Some(resp) => Ok(resp),
            None => Err("recording sender: no more canned responses".to_string()),
        }
    })
}

/// A connection that answers as a function does.
struct Sender<F>(F);

impl<F: FnMut(&WireRequest) -> Result<WireResponse, String>> Connection for Sender<F> {
    fn send(&mut self, req: &WireRequest) -> Result<WireResponse, String> {
        (self.0)(req)
    }
}

/// Ack empty (= old daemon that silently dropped `guard_constraints`)
/// must trigger a best-effort `KvDel` for the same key, and the
/// returned error must report the auto-delete success in its message.
#[test]
fn expect_guard_ack_empty_triggers_kv_del_and_reports_auto_deleted() {
    let history = std::cell::RefCell::new(Vec::new());
    let queue = std::cell::RefCell::new(std::collections::VecDeque::from(vec![
        // First: the KvSet ack — empty `guard_applied` (old daemon).
        WireResponse::set_ack_with_guard(Vec::new()),
        // Second: the auto-delete succeeds.
        WireResponse::deleted(true),
    ]));
    let mut send = make_sender(&history, &queue);

    let req = guarded_set_req();
    let err = text_of(expect_guard_ack_with_sender(&req, &mut send).unwrap_err());

    // The sender saw two calls: the KvSet itself, then a KvDel for
    // the same key with `with_define: false`.
    let hist = history.borrow();
    assert_eq!(hist.len(), 2, "sender must be called twice: {hist:?}");
    assert!(matches!(hist[0], WireRequest::KvSet { .. }));
    match &hist[1] {
        WireRequest::KvDel { key, with_define } => {
            assert_eq!(key, "default/K", "delete targets the same key");
            assert!(!with_define, "delete must not remove the definition");
        }
        other => panic!("second request must be KvDel, got {other:?}"),
    }

    // The error message reports the auto-delete success and names the
    // old-daemon cause + the restart hint.
    assert!(
        err.contains("auto-deleted"),
        "error names cleanup success: {err}"
    );
    assert!(
        err.contains("old cache-warden daemon"),
        "error names cause: {err}"
    );
    assert!(err.contains("restart"), "error names remediation: {err}");
}

/// Ack empty + `KvDel` fails: the error must name the failure and
/// tell the operator to `kv del` manually. The best-effort cleanup
/// itself does NOT change the error's terminal shape (still Err).
#[test]
fn expect_guard_ack_empty_with_failing_del_hints_manual_cleanup() {
    let history = std::cell::RefCell::new(Vec::new());
    let queue = std::cell::RefCell::new(std::collections::VecDeque::from(vec![
        WireResponse::set_ack_with_guard(Vec::new()),
        // Second: the auto-delete errors out (e.g. daemon dropped
        // the connection between the two exchanges).
        WireResponse::error(ErrorKind::Internal, "boom"),
    ]));
    let mut send = make_sender(&history, &queue);

    let req = guarded_set_req();
    let err = text_of(expect_guard_ack_with_sender(&req, &mut send).unwrap_err());

    // The delete WAS attempted (2 sends), but the message now steers
    // the operator to run `cache-warden kv del <key>` themselves.
    assert_eq!(history.borrow().len(), 2);
    assert!(
        err.contains("could NOT be auto-deleted"),
        "error surfaces the cleanup failure: {err}"
    );
    assert!(
        err.contains("cache-warden kv del default/K"),
        "error tells operator the manual remediation: {err}"
    );
}

/// Ack non-empty (= a matching-version daemon actually applied the
/// guard): the client succeeds without any auto-delete side effect.
#[test]
fn expect_guard_ack_populated_is_success_with_no_side_effect() {
    let history = std::cell::RefCell::new(Vec::new());
    let queue = std::cell::RefCell::new(std::collections::VecDeque::from(vec![
        WireResponse::set_ack_with_guard(vec!["same-user".to_string()]),
    ]));
    let mut send = make_sender(&history, &queue);

    let req = guarded_set_req();
    let line = expect_guard_ack_with_sender(&req, &mut send).expect("populated ack is success");
    assert_eq!(line, "ok (guard: same-user)");

    assert_eq!(
        history.borrow().len(),
        1,
        "no auto-delete when guard was applied"
    );
}

/// A wire error response is surfaced verbatim (formatted through
/// `error_kind_str`), no side effects.
#[test]
fn expect_guard_ack_wire_error_is_surfaced_verbatim() {
    let history = std::cell::RefCell::new(Vec::new());
    let queue =
        std::cell::RefCell::new(std::collections::VecDeque::from(vec![WireResponse::error(
            ErrorKind::BadRequest,
            "value_b64 is not valid base64",
        )]));
    let mut send = make_sender(&history, &queue);

    let req = guarded_set_req();
    let err = text_of(expect_guard_ack_with_sender(&req, &mut send).unwrap_err());
    assert!(err.contains("bad request"), "surfaces the kind: {err}");
    assert!(
        err.contains("value_b64"),
        "surfaces the daemon message: {err}"
    );
    assert_eq!(history.borrow().len(), 1, "no auto-delete on wire error");
}

// ---- routing ----

#[test]
fn daemon_register_parse_failure_is_usage_error() {
    // `--socket` with no value is a parse error.
    let rest = s(&["register", "--socket"]);
    assert_eq!(dispatch_group(Group::Daemon, &rest), Ok(Route::Leaf(Leaf::DaemonRegister)));
    let parsed: Result<(), String> = Err("--socket requires a PATH argument".to_string());
    let err = or_usage(parsed, HelpPage::Leaf(Leaf::DaemonRegister)).unwrap_err();
    match err {
        CliError::Usage { msg, .. } => {
            assert!(msg.contains("--socket requires a PATH argument"), "{msg}");
        }
        CliError::Message(msg) => panic!("parse failure must stay a usage error: {msg}"),
    }
}

#[test]
fn daemon_register_runtime_failure_is_message_not_usage() {
    let rest = s(&["register", "--executable", "/no/such/cache-warden-binary-xyz"]);
    assert_eq!(dispatch_group(Group::Daemon, &rest), Ok(Route::Leaf(Leaf::DaemonRegister)));
    let registered: Result<(), String> =
        Err("/no/such/cache-warden-binary-xyz does not exist".to_string());
    let err = or_message(registered).unwrap_err();
    match err {
        CliError::Message(msg) => assert!(msg.contains("does not exist"), "{msg}"),
        CliError::Usage { msg, .. } => {
            panic!("runtime failure must not dump the leaf help: {msg}")
        }
    }
}

#[test]
fn a_group_without_a_command_shows_its_page() {
    assert_eq!(
        dispatch_group(Group::Kv, &[]),
        Ok(Route::Show(HelpPage::Group(Group::Kv)))
    );
    assert_eq!(
        dispatch_group(Group::Vault, &s(&["--help"])),
        Ok(Route::Show(HelpPage::Group(Group::Vault)))
    );
}

#[test]
fn help_behind_a_command_shows_its_page_and_runs_nothing() {
    assert_eq!(
        dispatch_group(Group::Kv, &s(&["set", "K", "--help"])),
        Ok(Route::Show(HelpPage::Leaf(Leaf::KvSet)))
    );
    assert_eq!(
        dispatch_group(Group::Config, &s(&["edit", "--help"])),
        Ok(Route::Show(HelpPage::Leaf(Leaf::ConfigEdit)))
    );
}

#[test]
fn every_command_of_every_group_is_found() {
    let all = [
        (Group::Daemon, vec!["run", "register", "unregister", "status", "restart"]),
        (Group::Config, vec!["show", "path", "edit"]),
        (
            Group::Kv,
            vec!["define", "set", "get", "del", "list", "pin", "unpin", "claim", "unclaim"],
        ),
        (Group::Vault, vec!["init", "unlock", "add-passkey", "lock", "status"]),
    ];
    let mut seen = Vec::new();
    for (group, words) in all {
        for word in words {
            match dispatch_group(group, &s(&[word])) {
                Ok(Route::Leaf(leaf)) => {
                    assert!(!seen.contains(&leaf), "{word} leads to {leaf:?} again");
                    seen.push(leaf);
                }
                other => panic!("{word}: {other:?}"),
            }
        }
    }
    assert_eq!(seen.len(), 22);
}

#[test]
fn an_unknown_command_of_a_group_is_named() {
    assert_eq!(
        dispatch_group(Group::Vault, &s(&["open", "--help"])),
        Err("unknown vault subcommand: open (try `cache-warden vault --help`)".to_string())
    );
}

#[test]
fn the_first_argument_names_the_command() {
    assert_eq!(command(&[]), Ok(Command::Help));
    assert_eq!(command(&s(&["--help"])), Ok(Command::Help));
    assert_eq!(command(&s(&["--version", "kv"])), Ok(Command::Version));
    assert_eq!(command(&s(&["kv", "--version"])), Ok(Command::Group(Group::Kv)));
    assert_eq!(command(&s(&["ping"])), Ok(Command::Ping));
    assert_eq!(command(&s(&["inject"])), Ok(Command::Inject));
    assert_eq!(
        command(&s(&["frob"])),
        Err("unknown command: frob (try `cache-warden --help`)".to_string())
    );
    assert_eq!(VERSION_LINE, format!("{NAME} 0.1.0"));
}

#[test]
fn helpers_are_started_before_any_flag_is_read() {
    assert_eq!(start(&[], "op-key"), Start::Help);
    assert_eq!(start(&s(&["op-key", "--socket"]), "op-key"), Start::OpPrivateKey);
    assert_eq!(start(&s(&["internal", "--socket"]), "op-key"), Start::Internal);
    assert_eq!(start(&s(&["--socket", "P"]), "op-key"), Start::Command);
}

#[test]
fn internal_knows_one_command() {
    assert_eq!(dispatch_internal(&s(&["fda-check", "--raw"])), InternalStep::FdaCheck);
    assert_eq!(
        dispatch_internal(&[]),
        InternalStep::Fail {
            notes: s(&["cache-warden internal: missing subcommand", "Available: fda-check"])
        }
    );
    assert_eq!(
        dispatch_internal(&s(&["x"])),
        InternalStep::Fail { notes: s(&["cache-warden internal: unknown subcommand: x"]) }
    );
    assert_eq!(fda_check_note("no"), "cache-warden internal fda-check: no");
}

#[test]
fn wrong_arguments_show_the_page_and_other_failures_do_not() {
    let usage = CliError::Usage { msg: "bad".into(), page: HelpPage::Leaf(Leaf::KvGet) };
    assert_eq!(usage.report(), vec!["cache-warden: bad".to_string(), help::kv_get().render()]);
    let silent = CliError::Usage { msg: String::new(), page: HelpPage::Run };
    assert_eq!(silent.report(), vec![help::run_cmd().render()]);
    assert_eq!(CliError::Message("bad".into()).report(), s(&["cache-warden: bad"]));
    assert!(CliError::Message(String::new()).report().is_empty());
}

#[test]
fn pages_are_those_of_their_commands() {
    assert_eq!(HelpPage::Top.page().render(), help::top().render());
    assert_eq!(HelpPage::Group(Group::Config).page().render(), help::config().render());
    assert_eq!(HelpPage::Leaf(Leaf::KvPin).page().render(), help::kv_pin().render());
    assert_eq!(HelpPage::Leaf(Leaf::KvClaim).page().render(), help::kv().render());
    assert_eq!(HelpPage::Inject.page().render(), help::inject_cmd().render());
}

#[test]
fn the_namespace_in_force_comes_with_the_arguments_left_over() {
    let (ns, rest) =
        namespace_in_force(&s(&["K", "--namespace", "a"]), Some("b".into()), None).unwrap();
    assert_eq!((ns.as_str(), rest), ("a", s(&["K"])));
    let (ns, _) = namespace_in_force(&s(&["K"]), Some("b".into()), Some("c".into())).unwrap();
    assert_eq!(ns, "b");
    assert!(namespace_in_force(&s(&["--namespace"]), None, None).is_err());
    assert!(namespace_in_force(&s(&["K"]), Some("b/c".into()), None).is_err());
    let (ns, _) = namespace_in_force(&s(&["K"]), Some("  ".into()), Some("c".into())).unwrap();
    assert_eq!(ns, "c", "a blank variable is none");
    let (ns, _) = namespace_in_force(&s(&["K"]), Some(String::new()), None).unwrap();
    assert_eq!(ns, "default");
    let (ns, _) = namespace_in_force(&s(&["K"]), Some(" b ".into()), Some("c".into())).unwrap();
    assert_eq!(ns, "b", "a variable is trimmed");
}

#[test]
fn a_bad_environment_is_refused_even_beside_a_flag() {
    assert_eq!(resolve_cli_mode(None, Some(" ON ".into()), None), Ok(Mode::DryRun));
    assert_eq!(
        resolve_cli_mode(Some(ModeFlag::Reveal), Some("1".into()), Some(Mode::DryRun)),
        Ok(Mode::Reveal)
    );
    assert_eq!(resolve_cli_mode(None, Some("  ".into()), Some(Mode::DryRun)), Ok(Mode::DryRun));
    assert!(resolve_cli_mode(Some(ModeFlag::Reveal), Some("maybe".into()), None).is_err());
}

#[test]
fn status_words_the_complaints_of_unregister_for_itself() {
    assert_eq!(
        status_wording("daemon unregister: unknown option (daemon unregister takes --label)"),
        "daemon status: unknown option (daemon status takes --label)"
    );
    assert_eq!(status_wording("daemon unregiste"), "daemon unregiste");
}

#[test]
fn a_dry_run_with_open_references_does_not_run() {
    let failures = s(&["A", "B"]);
    let text = "dry-run: 2 reference(s) failed to resolve: A, B".to_string();
    assert_eq!(unresolved_references(&failures), Some(text.clone()));
    assert_eq!(unresolved_references(&[]), None);
    assert_eq!(run_refusal(Mode::DryRun, &failures), Some(text));
    assert_eq!(run_refusal(Mode::Reveal, &failures), None);
    assert_eq!(run_refusal(Mode::DryRun, &[]), None);
}

#[test]
fn commands_that_cannot_be_started_exit_as_a_shell_would() {
    assert_eq!(
        exec_failure("no such", true, "not found"),
        (127, "cache-warden: cannot exec \"no such\": not found".to_string())
    );
    assert_eq!(exec_failure("x", false, "denied").0, 126);
    assert!(argv_warning("a\nb").starts_with("cache-warden: warning: \"a\\nb\" looks like"));
}

// ---- replies ----

fn ok(payload: OkPayload) -> WireResponse {
    WireResponse::Success(OkBody { payload })
}

fn printed(payload: OkPayload) -> Vec<Line> {
    let shown = render_response(ok(payload), "keep it safe").unwrap();
    assert_eq!(shown.value_b64, None);
    shown.lines
}

fn out(text: &str) -> Line {
    Line::Out(text.to_string())
}

fn note(text: &str) -> Line {
    Line::Note(text.to_string())
}

#[test]
fn replies_print_one_plain_line() {
    assert_eq!(printed(OkPayload::Pong), vec![out("pong")]);
    assert_eq!(
        printed(OkPayload::Stored { guard_applied: vec![], version: Some(3) }),
        vec![out("ok (version 3)")]
    );
    assert_eq!(
        printed(OkPayload::Stored { guard_applied: vec![], version: None }),
        vec![out("ok")]
    );
    assert_eq!(printed(OkPayload::Unclaimed), vec![out("unclaimed")]);
    assert_eq!(printed(OkPayload::Defined), vec![out("defined")]);
    assert_eq!(printed(OkPayload::Deleted { deleted: true }), vec![out("deleted")]);
    assert_eq!(printed(OkPayload::Deleted { deleted: false }), vec![out("not found")]);
    assert_eq!(printed(OkPayload::Pinned { pin_remaining_secs: 60 }), vec![out("pinned for 60s")]);
    assert_eq!(printed(OkPayload::Unpinned { unpinned: true }), vec![out("unpinned")]);
    assert_eq!(printed(OkPayload::Unpinned { unpinned: false }), vec![out("not found")]);
    assert_eq!(printed(OkPayload::Restarting), vec![out("restart accepted")]);
    assert_eq!(printed(OkPayload::VaultLocked), vec![out("locked")]);
    assert_eq!(
        printed(OkPayload::VaultUnlocked { entries_restored: 2 }),
        vec![out("unlocked (2 entries available)")]
    );
    assert_eq!(
        printed(OkPayload::GetVerified { verified: true, state: "active".into() }),
        vec![out("verified (active); no value (dry-run)")]
    );
    assert_eq!(
        printed(OkPayload::List { keys: s(&["a/B", "c/D"]), entries: vec![] }),
        vec![out("a/B"), out("c/D")]
    );
}

#[test]
fn what_is_to_be_piped_on_goes_alone_to_the_output() {
    assert_eq!(
        printed(OkPayload::Claimed {
            version: 7,
            claim_token: "tok".into(),
            claim_expires_in_secs: 30
        }),
        vec![note("claimed key at version 7 for 30s"), out("tok")]
    );
    assert_eq!(
        printed(OkPayload::CeremonyOpened { url: "http://x".into(), expires_in_secs: 120 }),
        vec![note("open this in a browser within 120s to register the passkey:"), out("http://x")]
    );
    assert_eq!(
        printed(OkPayload::VaultInitialized { vault_id: "v1".into(), recovery_code: "rc".into() }),
        vec![note("vault v1 created."), out("rc"), note("\nkeep it safe")]
    );
}

#[test]
fn a_value_is_printed_by_nothing_but_a_get() {
    let shown = render_response(ok(OkPayload::Get { value_b64: "djE=".into() }), "").unwrap();
    assert!(shown.lines.is_empty());
    assert_eq!(shown.value_b64, Some("djE=".to_string()));
}

fn status_payload(entries: Vec<EntryInfo>) -> OkPayload {
    OkPayload::Status {
        pid: 42,
        version: "0.1.0".into(),
        socket: "/tmp/s".into(),
        entries,
        full_disk_access: None,
        vault: None,
    }
}

#[test]
fn status_lists_each_entry_with_its_attributes() {
    assert_eq!(
        printed(status_payload(vec![])),
        vec![out("daemon: cache-warden 0.1.0 (pid 42)"), out("socket: /tmp/s"), out("entries: (none)")]
    );
    let mut e = base_entry();
    e.regenerable = true;
    e.defined = true;
    e.has_value = false;
    e.value_type = Some("otp".into());
    e.source = Some("op://v/i/f".into());
    assert_eq!(
        printed(status_payload(vec![e])),
        vec![
            out("daemon: cache-warden 0.1.0 (pid 42)"),
            out("socket: /tmp/s"),
            out("entries:"),
            out("  default/K [active] (regenerable, type otp, source op://v/i/f, defined, no value)"),
        ]
    );
}

#[test]
fn every_failure_has_a_name() {
    let names = [
        (ErrorKind::BadRequest, "bad request"),
        (ErrorKind::NotFound, "not found"),
        (ErrorKind::AuthFailed, "auth failed"),
        (ErrorKind::NotRegenerable, "not regenerable"),
        (ErrorKind::HardExpired, "hard expired"),
        (ErrorKind::UpstreamFailed, "upstream failed"),
        (ErrorKind::Internal, "internal error"),
        (ErrorKind::RestartAborted, "restart aborted"),
        (ErrorKind::CasMismatch, "version conflict"),
        (ErrorKind::AlreadyClaimed, "already being refreshed"),
        (ErrorKind::ClaimTokenMismatch, "claim token mismatch"),
        (ErrorKind::VaultLocked, "vault locked"),
        (ErrorKind::VaultNotInitialized, "no vault"),
    ];
    for (kind, name) in names {
        assert_eq!(error_kind_str(kind), name);
        assert_eq!(
            render_response(WireResponse::error(kind, "why"), ""),
            Err(format!("{name}: why"))
        );
    }
}

#[test]
fn status_shows_the_entries_of_its_namespace_by_their_names() {
    let mut mine = base_entry();
    mine.name = "a/K".into();
    mine.guard_summary = Some(s(&["same-user"]));
    let mut other = base_entry();
    other.name = "b/K".into();
    let reply = ok(status_payload(vec![mine.clone(), other.clone()]));
    let shown = match status_in_namespace(reply.clone(), "a", false) {
        WireResponse::Success(OkBody { payload: OkPayload::Status { entries, .. } }) => entries,
        r => panic!("{r:?}"),
    };
    let mut stripped = mine;
    stripped.name = "K".into();
    assert_eq!(shown, vec![stripped]);
    assert_eq!(status_in_namespace(reply.clone(), "a", true), reply);
    let failure = WireResponse::error(ErrorKind::Internal, "x");
    assert_eq!(status_in_namespace(failure.clone(), "a", false), failure);
}

#[test]
fn a_list_shows_hints_only_where_there_is_a_report_for_each_key() {
    let mut e = base_entry();
    e.backoff_until_secs = Some(3);
    e.guard_summary = Some(s(&["same-user", "command (git) (weak)"]));
    let keys = s(&["default/K", "other/K"]);
    let mut far = base_entry();
    far.name = "other/K".into();
    assert_eq!(
        render_kv_list(&keys, &[e.clone(), far.clone()], "default", false),
        s(&["K  backoff: 3s  guard: same-user, command (git) (weak)"])
    );
    assert_eq!(
        render_kv_list(&keys, &[e.clone(), far], "default", true),
        s(&["default/K  backoff: 3s  guard: same-user, command (git) (weak)", "other/K"])
    );
    assert_eq!(render_kv_list(&keys, &[e], "default", true), keys);
    assert_eq!(
        list_output(ok(OkPayload::List { keys, entries: vec![] }), "other", false),
        ListOutput::Lines(s(&["K"]))
    );
    assert_eq!(list_output(ok(OkPayload::Pong), "a", false), ListOutput::Unexpected(OkPayload::Pong));
    assert_eq!(
        list_output(WireResponse::error(ErrorKind::Internal, "x"), "a", false),
        ListOutput::Failed("internal error: x".into())
    );
}

#[test]
fn the_vault_section_is_taken_out_of_the_status() {
    let vault = VaultStatusWire {
        state: VaultStateWire::Locked,
        vault_id: Some("v".into()),
        slots: Some(1),
        dek_generation: Some(1),
        dev_rp_slot: false,
    };
    let mut payload = status_payload(vec![]);
    if let OkPayload::Status { vault: v, .. } = &mut payload {
        *v = Some(vault.clone());
    }
    assert_eq!(vault_output(ok(payload)), VaultOutput::Vault(Some(vault)));
    assert_eq!(vault_output(ok(OkPayload::Pong)), VaultOutput::Unexpected(OkPayload::Pong));
    assert_eq!(
        vault_output(WireResponse::error(ErrorKind::Internal, "x")),
        VaultOutput::Failed("internal error: x".into())
    );
}

// ---- get ----

#[test]
fn a_dry_run_prints_a_mask_and_never_a_value() {
    assert_eq!(mask("default/K", true), "<cache-warden:default/K:masked>");
    assert_eq!(mask("default/K", false), "<cache-warden:default/K:failed>");
    assert_eq!(
        get_request("default/K", Mode::DryRun),
        WireRequest::KvGet { key: "default/K".into(), dry_run: true }
    );
    assert_eq!(
        get_request("default/K", Mode::Reveal),
        WireRequest::KvGet { key: "default/K".into(), dry_run: false }
    );
    assert_eq!(
        get_output("default/K", Mode::DryRun, WireResponse::get_verified("active")),
        GetOutput::Masked("<cache-warden:default/K:masked>".into())
    );
    assert_eq!(
        get_output("default/K", Mode::DryRun, WireResponse::error(ErrorKind::NotFound, "no")),
        GetOutput::Failed {
            line: Some("<cache-warden:default/K:failed>".into()),
            message: "not found: no".into()
        }
    );
    assert_eq!(
        get_output("default/K", Mode::Reveal, WireResponse::error(ErrorKind::NotFound, "no")),
        GetOutput::Failed { line: None, message: "not found: no".into() }
    );
    assert_eq!(
        get_output("default/K", Mode::Reveal, WireResponse::get("djE=".into())),
        GetOutput::Value("djE=".into())
    );
    assert_eq!(
        get_output("default/K", Mode::Reveal, WireResponse::pong()),
        GetOutput::Unexpected(OkPayload::Pong)
    );
}

// ---- define ----

fn definition(name: &str) -> KvDefinition {
    KvDefinition {
        name: name.into(),
        namespace: None,
        source: SourceSpecWire::command(s(&["op", "read", "op://x"])),
        soft_ttl_secs: Some(60),
        hard_ttl_secs: None,
        preload: false,
        meta: ValueMetaWire { type_label: None, params: vec![] },
    }
}

#[test]
fn a_definition_is_requested_under_its_composed_key() {
    match define_request(&definition("K"), "proj") {
        WireRequest::KvDefine { key, source, soft_ttl_secs, hard_ttl_secs, meta } => {
            assert_eq!(key, "proj/K");
            match source {
                SourceSpecWire::Command { command } => {
                    assert_eq!(command.argv, s(&["op", "read", "op://x"]));
                    assert_eq!(command.cwd, None);
                    assert!(command.env.is_empty());
                }
                other => panic!("{other:?}"),
            }
            assert_eq!((soft_ttl_secs, hard_ttl_secs), (Some(60), None));
            assert_eq!(meta.type_label, None);
        }
        other => panic!("{other:?}"),
    }
    let mut pinned = definition("K");
    pinned.namespace = Some("own".into());
    match define_request(&pinned, "proj") {
        WireRequest::KvDefine { key, .. } => assert_eq!(key, "own/K"),
        other => panic!("{other:?}"),
    }
}

#[test]
fn a_definition_is_requested_with_its_whole_source() {
    let sources = [
        SourceSpecWire::Command {
            command: CommandSpecWire {
                argv: s(&["make", "token"]),
                cwd: Some("/src".into()),
                env: vec![("A".into(), "b".into())],
            },
        },
        SourceSpecWire::Op {
            op: OpSpecWire { uri: "op://v/i/f".into(), account: Some("me".into()) },
        },
    ];
    for given in sources {
        let def = KvDefinition { source: given.clone(), ..definition("K") };
        match define_request(&def, "proj") {
            WireRequest::KvDefine { source, .. } => assert_eq!(source, given),
            other => panic!("{other:?}"),
        }
    }
}

#[test]
fn one_clashing_definition_does_not_stop_the_others() {
    let attempts = vec![
        DefineAttempt::Failed("a.toml: unreadable".into()),
        define_attempt("d/A", Ok(WireResponse::defined_ack())).unwrap(),
        define_attempt("d/B", Ok(WireResponse::error(ErrorKind::BadRequest, "clash"))).unwrap(),
    ];
    let report = define_report(&attempts);
    assert_eq!(report.line, Some("defined 1".into()));
    assert_eq!(
        report.failure,
        Some("2 definition(s) failed:\n  a.toml: unreadable\n  d/B: clash".into())
    );
    let report = define_report(&attempts[..1]);
    assert_eq!(report.line, None);
    assert!(report.failure.is_some());
    let report = define_report(&[]);
    assert_eq!((report.line, report.failure), (Some("defined 0".into()), None));
    assert_eq!(define_attempt("d/A", Err("daemon down".into())), Err("daemon down".into()));
}

#[test]
fn a_half_registered_set_is_not_used() {
    assert_eq!(register_reply("A", WireResponse::defined_ack()), Ok(()));
    assert_eq!(
        register_reply("A", WireResponse::error(ErrorKind::BadRequest, "clash")),
        Err("A: clash".into())
    );
}

// ---- guarded writes ----

#[test]
fn only_a_declaration_needs_a_guard_acknowledgement() {
    let mut req = guarded_set_req();
    assert!(needs_guard_ack(&req));
    if let WireRequest::KvSet { guard_constraints, .. } = &mut req {
        guard_constraints.clear();
    }
    assert!(!needs_guard_ack(&req));
    assert!(!needs_guard_ack(&WireRequest::Ping));
}

#[test]
fn a_broken_connection_is_reported_as_it_is() {
    let mut broken =
        Sender(|_: &WireRequest| Err::<WireResponse, String>("connection refused".into()));
    let err = expect_guard_ack_with_sender(&guarded_set_req(), &mut broken);
    assert_eq!(err, Err(AckError::Message("connection refused".into())));
    let mut confused = Sender(|_: &WireRequest| Ok::<WireResponse, String>(WireResponse::pong()));
    let err = expect_guard_ack_with_sender(&guarded_set_req(), &mut confused);
    assert_eq!(err, Err(AckError::Unexpected(OkPayload::Pong)));
    let mut silent = Sender(|_: &WireRequest| {
        Ok::<WireResponse, String>(WireResponse::set_ack_with_guard(vec![]))
    });
    let err = expect_guard_ack_with_sender(&WireRequest::Ping, &mut silent);
    assert_eq!(
        err,
        Err(AckError::Message(
            "internal error: expect_guard_ack invoked with a non-KvSet request".into()
        ))
    );
}

fn plain_def(name: &str) -> KvDefinition {
    KvDefinition {
        name: name.to_string(),
        namespace: None,
        source: SourceSpecWire::command(vec!["echo".to_string()]),
        soft_ttl_secs: None,
        hard_ttl_secs: None,
        preload: false,
        meta: ValueMetaWire { type_label: None, params: Vec::new() },
    }
}

fn key_of(req: &WireRequest) -> String {
    match req {
        WireRequest::KvDefine { key, .. } => key.clone(),
        other => panic!("expected a definition, got {other:?}"),
    }
}

#[test]
fn one_clashing_key_does_not_take_the_batch_down() {
    let mut batch = Vec::new();
    add_file(&mut batch, Ok(vec![plain_def("A"), plain_def("B")]));
    add_file(&mut batch, Err("cannot read defs file x".to_string()));
    add_file(&mut batch, Ok(vec![plain_def("C")]));
    assert_eq!(batch.len(), 4);
    let mut asked = Vec::new();
    let mut daemon = Sender(|req: &WireRequest| {
        asked.push(key_of(req));
        if key_of(req) == "ns/B" {
            Ok(WireResponse::error(ErrorKind::BadRequest, "clash"))
        } else {
            Ok(WireResponse::defined_ack())
        }
    });
    let report = run_define_defs(&batch, "ns", &mut daemon).unwrap();
    assert_eq!(asked, s(&["ns/A", "ns/B", "ns/C"]), "each is asked for once");
    assert_eq!(report.line.as_deref(), Some("defined 2"));
    assert_eq!(
        report.failure.as_deref(),
        Some("2 definition(s) failed:\n  ns/B: clash\n  cannot read defs file x")
    );
    let mut tried = 0;
    let mut down = Sender(|_: &WireRequest| {
        tried += 1;
        Err("daemon down".to_string())
    });
    assert_eq!(run_define_defs(&batch, "ns", &mut down), Err("daemon down".to_string()));
    assert_eq!(tried, 1, "a daemon that is down is not asked again");
}

#[test]
fn a_command_waits_for_all_of_its_definitions() {
    let found = [plain_def("A"), plain_def("B")];
    let register = |refused: &str| {
        let mut daemon = Sender(|req: &WireRequest| {
            if key_of(req) == refused {
                Ok(WireResponse::error(ErrorKind::BadRequest, "clash"))
            } else {
                Ok(WireResponse::defined_ack())
            }
        });
        register_defs(&found, "ns", &mut daemon)
    };
    assert_eq!(register("none"), Ok(()));
    assert_eq!(register("ns/B"), Err("B: clash".to_string()));
    let mut down = Sender(|_: &WireRequest| Err("daemon down".to_string()));
    assert_eq!(register_defs(&found, "ns", &mut down), Err("daemon down".to_string()));
}

#[test]
fn nothing_behind_the_separator_is_an_option() {
    assert_eq!(dispatch_group(Group::Kv, &s(&["get", "--", "--help"])), Ok(Route::Leaf(Leaf::KvGet)));
    assert_eq!(dispatch_group(Group::Kv, &s(&["get", "--", "-h"])), Ok(Route::Leaf(Leaf::KvGet)));
    let page = Ok(Route::Show(HelpPage::Leaf(Leaf::KvGet)));
    assert_eq!(dispatch_group(Group::Kv, &s(&["get", "--help", "--", "K"])), page);
    assert_eq!(dispatch_group(Group::Kv, &s(&["get", "-h"])), page);
    assert!(options_want_help(&s(&["--env", "A=b", "--help"])));
    assert!(!options_want_help(&s(&["--", "ls", "--help"])));
}

#[test]
fn the_separator_ends_the_options_of_keys_alone() {
    assert_eq!(
        dispatch_group(Group::Daemon, &s(&["run", "--", "--help"])),
        Ok(Route::Show(HelpPage::Leaf(Leaf::DaemonRun)))
    );
    assert_eq!(
        dispatch_group(Group::Config, &s(&["show", "--", "--help"])),
        Ok(Route::Show(HelpPage::Leaf(Leaf::ConfigShow)))
    );
    assert_eq!(
        dispatch_group(Group::Daemon, &s(&["run", "--"])),
        Ok(Route::Leaf(Leaf::DaemonRun))
    );
}

#[test]
fn a_command_to_define_is_taken_as_it_is() {
    let define = Ok(Route::Leaf(Leaf::KvDefine));
    let given = s(&["define", "K", "--command", "psql", "-h", "db"]);
    assert_eq!(dispatch_group(Group::Kv, &given), define);
    let given = s(&["define", "K", "--command", "ls", "--help"]);
    assert_eq!(dispatch_group(Group::Kv, &given), define);
    let page = Ok(Route::Show(HelpPage::Leaf(Leaf::KvDefine)));
    let given = s(&["define", "-h", "--command", "ls"]);
    assert_eq!(dispatch_group(Group::Kv, &given), page);
    let page = Ok(Route::Show(HelpPage::Leaf(Leaf::KvGet)));
    assert_eq!(dispatch_group(Group::Kv, &s(&["get", "--command", "-h"])), page);
}
