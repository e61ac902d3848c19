//! The help pages.

use cache_warden_cli::help::{
    config, daemon, daemon_register, daemon_status, daemon_unregister, inject_cmd, kv, kv_define,
    kv_del, kv_get, kv_list, kv_pin, kv_set, kv_unpin, render_section, run_cmd, top, wants_help,
    Row, INDENT, MAX_DESC_COLUMN, NAME_GAP,
};

#[test]
fn wants_help_detects_flag_anywhere() {
    assert!(wants_help(&["--help".into()]));
    assert!(wants_help(&["set".into(), "--help".into()]));
    assert!(!wants_help(&["set".into(), "K".into()]));
    assert!(!wants_help(&[]));
    assert!(wants_help(&["-h".into()]));
    assert!(wants_help(&["set".into(), "-h".into()]));
}

#[test]
fn top_help_has_sections_but_no_per_flag_detail() {
    let h = top().render();
    // Command list present.
    assert!(h.contains("Commands:"));
    assert!(h.contains("kv set <KEY> [VALUE]"));
    // Global + environment present.
    assert!(h.contains("Global options:"));
    assert!(h.contains("--socket PATH"));
    assert!(h.contains("Environment:"));
    assert!(h.contains("CACHE_WARDEN_CONFIG"));
    // The per-flag `kv set` detail must NOT be on the top page anymore.
    assert!(!h.contains("shell history"));
    assert!(!h.contains("Hold the value Active"));
}

#[test]
fn kv_group_help_lists_subcommands_with_one_liners() {
    let h = kv().render();
    assert!(h.contains("cache-warden kv\n"));
    assert!(h.contains("Commands:"));
    assert!(h.contains("set"));
    assert!(h.contains("pin"));
    // group help shows the global section too.
    assert!(h.contains("Global options:"));
    // but not the per-flag detail of `kv set`.
    assert!(!h.contains("shell history"));
    // The shared `--` separator rule is documented at the group level.
    assert!(h.contains("`--` separator"));
}

#[test]
fn kv_set_help_carries_option_detail() {
    let h = kv_set().render();
    assert!(h.contains("Options:"));
    // The value is positional now: usage shows it, no --value flags remain.
    assert!(h.contains("KEY [VALUE]"));
    assert!(!h.contains("--value-stdin"));
    assert!(!h.contains("--value V"));
    assert!(h.contains("--soft-ttl DUR"));
    assert!(h.contains("Global options:"));
    assert!(h.contains("Environment:"));
    // Secrets-in-argv warning + binary/NUL note + pipe guidance.
    assert!(h.contains("shell history"));
    assert!(h.contains("NUL"));
    assert!(h.contains("stdin"));
    // The `--` separator is shown for option-looking keys.
    assert!(h.contains("kv set -- --weird-key"));
    // Value types (otp) moved to `kv define`; `kv set` no longer lists them
    // but steers users there.
    assert!(!h.contains("--otp-digits"));
    assert!(h.contains("kv define KEY --type otp"));
    // Namespace flag.
    assert!(h.contains("--namespace NS"));
}

#[test]
fn kv_list_and_value_verbs_document_namespaces() {
    // every kv leaf carries --namespace; list adds --all-namespaces.
    let list = kv_list().render();
    assert!(list.contains("--namespace NS"));
    assert!(list.contains("--all-namespaces"));
    assert!(list.contains("NS/KEY"));
    for spec in [kv_get(), kv_del(), kv_pin(), kv_unpin(), kv_define()] {
        let h = spec.render();
        assert!(h.contains("--namespace NS"), "missing in: {h}");
    }
    // run / inject carry the flag and the [NS/]KEY reference grammar.
    for spec in [run_cmd(), inject_cmd()] {
        let h = spec.render();
        assert!(h.contains("--namespace NS"), "missing in: {h}");
        assert!(h.contains("[NS/]KEY"), "reference grammar in: {h}");
    }
    // The kv group page explains the precedence chain.
    let group = kv().render();
    assert!(group.contains("CACHE_WARDEN_NAMESPACE"));
}

#[test]
fn kv_define_help_carries_command_and_source_options() {
    let h = kv_define().render();
    assert!(h.contains("Options:"));
    assert!(h.contains("--command ARGV..."));
    assert!(h.contains("--source URI"));
    assert!(h.contains("--defs FILE"));
    assert!(h.contains("--soft-ttl DUR"));
    // The lazy + idempotency explanation lives here.
    assert!(h.contains("lazily"));
    assert!(h.contains("--with-define"));
    // The bulk-define note mentions no implicit discovery.
    assert!(h.contains(".cache-warden.toml"));
    // OTP value-type flags + the attribute=otp footgun note.
    assert!(h.contains("--type otp"));
    assert!(h.contains("--otp-algorithm"));
    assert!(h.contains("attribute=otp"));
}

#[test]
fn kv_del_help_carries_with_define() {
    let h = kv_del().render();
    assert!(h.contains("--with-define"));
}

#[test]
fn kv_pin_help_carries_long_explanation() {
    let h = kv_pin().render();
    assert!(h.contains("Hold the value Active"));
    assert!(h.contains("same grammar as the TTL flags"));
}

#[test]
fn daemon_group_help_lists_run_and_service_subcommands() {
    let h = daemon().render();
    assert!(h.contains("cache-warden daemon\n"));
    assert!(h.contains("Commands:"));
    assert!(h.contains("run"));
    // register / unregister / status are now real subcommands.
    assert!(h.contains("register"));
    assert!(h.contains("unregister"));
    assert!(h.contains("status"));
}

#[test]
fn daemon_register_help_carries_flags_and_notes() {
    let h = daemon_register().render();
    assert!(h.contains("--socket PATH"));
    assert!(h.contains("--label NAME"));
    assert!(h.contains("--print"));
    // The idempotency + baked-config rationale is documented.
    assert!(h.contains("idempotent"));
    assert!(h.contains("CACHE_WARDEN_CONFIG"));
    // The Linux linger hint is mentioned.
    assert!(h.contains("enable-linger"));
}

#[test]
fn daemon_unregister_and_status_help_carry_label_flag() {
    for h in [daemon_unregister().render(), daemon_status().render()] {
        assert!(h.contains("--label NAME"), "missing --label in: {h}");
    }
    // status explains it differs from the top-level entry-listing status.
    assert!(daemon_status().render().contains("distinct from"));
}

#[test]
fn top_help_lists_daemon_service_subcommands() {
    let h = top().render();
    assert!(h.contains("daemon register"));
    assert!(h.contains("daemon unregister"));
    assert!(h.contains("daemon status"));
}

#[test]
fn config_group_help_lists_subcommands() {
    let h = config().render();
    assert!(h.contains("show"));
    assert!(h.contains("path"));
    assert!(h.contains("edit"));
}

#[test]
fn rows_in_a_section_share_one_description_column() {
    let h = kv().render();
    // Within the Commands: section, all one-liner descriptions align to the
    // same column (auto-fit to the widest short name, here `define`).
    let set_col = h
        .lines()
        .find(|l| l.trim_start().starts_with("set"))
        .and_then(|l| l.find("Cache a static value"))
        .unwrap();
    let define_col = h
        .lines()
        .find(|l| l.trim_start().starts_with("define"))
        .and_then(|l| l.find("Register a regenerable"))
        .unwrap();
    assert_eq!(set_col, define_col);
    // `define` is the widest name here, so its description sits right after it.
    assert_eq!(define_col, INDENT.len() + "define".len() + NAME_GAP);
}

#[test]
fn multiline_desc_continuation_is_indented() {
    let h = top().render();
    // The --socket option wraps; the last continuation line must be indented
    // (all-space prefix, no name in column 0).
    let idx = h.find("$XDG_STATE_HOME/cache-warden/control.sock").unwrap();
    let line_start = h[..idx].rfind('\n').map(|n| n + 1).unwrap_or(0);
    let prefix = &h[line_start..idx];
    assert!(prefix.chars().all(|c| c == ' '));
    assert!(prefix.len() >= INDENT.len());
}

#[test]
fn long_name_drops_description_to_next_line() {
    // A name at/above MAX_DESC_COLUMN keeps its description on the next line
    // (indented to the column) instead of running long inline.
    let long = "x".repeat(MAX_DESC_COLUMN); // INDENT + name >> MAX_DESC_COLUMN
    let rows = [Row {
        name: Box::leak(long.into_boxed_str()),
        desc: "the description",
    }];
    let mut out = String::new();
    render_section(&mut out, "Section:", &rows);
    let lines: Vec<&str> = out.lines().collect();
    // ["", "Section:", "    xxxx...", "                         the description"]
    let name_line = lines.iter().find(|l| l.contains("xxx")).unwrap();
    assert!(
        !name_line.contains("the description"),
        "long name should not carry its description inline"
    );
    let desc_line = lines
        .iter()
        .find(|l| l.contains("the description"))
        .unwrap();
    assert!(desc_line.starts_with(&" ".repeat(MAX_DESC_COLUMN)));
}
