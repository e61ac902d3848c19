//! Help pages of the command line: the program itself, its groups and each
//! command.
//!
//! A page is data: its heading, a summary, its commands and options, and free
//! text. [`HelpSpec::render`] lays out every page in the same way, and adds the
//! global options and the environment variables, which are the same for all.

use vstd::prelude::*;

use crate::text;

verus! {

/// One row of a help section: a command or an option. A description of several
/// lines is continued under its first one.
pub struct Row {
    pub name: &'static str,
    pub desc: &'static str,
}

/// A help page.
pub struct HelpSpec {
    /// The first line, such as `cache-warden kv set`.
    pub heading: &'static str,
    /// The line under the heading; none where it is empty.
    pub summary: &'static str,
    /// The line under `Usage:`.
    pub usage: &'static str,
    /// The commands of a group; empty for a command.
    pub subcommands: &'static [Row],
    /// The options that belong to this page alone.
    pub options: &'static [Row],
    /// Free text after the options; none where it is empty.
    pub detail: &'static str,
    /// Whether the global options and the environment follow.
    pub show_global: bool,
}

/// What a [`HelpSpec`] holds.
#[verifier::ext_equal]
pub struct HelpText {
    pub heading: Seq<char>,
    pub summary: Seq<char>,
    pub usage: Seq<char>,
    pub subcommands: Seq<(Seq<char>, Seq<char>)>,
    pub options: Seq<(Seq<char>, Seq<char>)>,
    pub detail: Seq<char>,
    pub show_global: bool,
}

/// What the rows of a section hold.
pub open spec fn row_texts(rows: Seq<Row>) -> Seq<(Seq<char>, Seq<char>)> {
    rows.map_values(|r: Row| (r.name@, r.desc@))
}

impl View for HelpSpec {
    type V = HelpText;

    open spec fn view(&self) -> HelpText {
        HelpText {
            heading: self.heading@,
            summary: self.summary@,
            usage: self.usage@,
            subcommands: row_texts(self.subcommands@),
            options: row_texts(self.options@),
            detail: self.detail@,
            show_global: self.show_global,
        }
    }
}

/// What stands before every row.
pub const INDENT: &'static str = "    ";

/// The spaces between a name and its description.
pub const NAME_GAP: usize = 2;

/// The widest column that descriptions start in. A name that does not fit in
/// front of it has its description on the next line.
pub const MAX_DESC_COLUMN: usize = 25;

/// The bytes that a text takes.
pub open spec fn byte_len(s: Seq<char>) -> nat {
    vstd::utf8::encode_utf8(s).len()
}

fn text_width(s: &str) -> (r: usize)
    ensures
        r == byte_len(s@),
{
    s.as_bytes().len()
}

/// `n` spaces.
pub open spec fn spaces(n: nat) -> Seq<char> {
    Seq::new(n, |i: int| ' ')
}

fn pad(n: usize) -> (r: String)
    ensures
        r@ == spaces(n as nat),
{
    let mut out = String::new();
    let mut i: usize = 0;
    assert(out@ =~= spaces(0));
    while i < n
        invariant
            i <= n,
            out@ == spaces(i as nat),
        decreases n - i,
    {
        out.push(' ');
        assert(out@ =~= spaces((i + 1) as nat));
        i += 1;
    }
    out
}

/// The lines of a description, each on a line of its own in `column`.
pub open spec fn desc_lines(lines: Seq<Seq<char>>, column: nat) -> Seq<char>
    decreases lines.len(),
{
    if lines.len() == 0 {
        Seq::empty()
    } else {
        desc_lines(lines.drop_last(), column) + spaces(column) + lines.last() + "\n"@
    }
}

/// One row, with its description in `column`.
pub open spec fn row_text(row: (Seq<char>, Seq<char>), column: nat) -> Seq<char> {
    let lines = text::pieces(row.1, '\n');
    let width = 4 + byte_len(row.0);
    (if width < column {
        "    "@ + row.0 + spaces((column - width) as nat) + lines[0] + "\n"@
    } else {
        "    "@ + row.0 + "\n"@ + spaces(column) + lines[0] + "\n"@
    }) + desc_lines(lines.skip(1), column)
}

/// Append one row, with its description in `desc_column`.
pub fn render_row(out: &mut String, row: &Row, desc_column: usize)
    ensures
        final(out)@ == old(out)@ + row_text((row.name@, row.desc@), desc_column as nat),
{
    let ghost start = out@;
    let lines = text::split(row.desc, '\n');
    let ghost texts = lines.deep_view();
    proof {
        reveal_strlit("    ");
        assert(texts[0] == lines@[0]@);
    }
    let width: usize = text_width(row.name);
    out.append(INDENT);
    out.append(row.name);
    if desc_column > 4 && width < desc_column - 4 {
        out.append(pad(desc_column - 4 - width).as_str());
    } else {
        out.append("\n");
        out.append(pad(desc_column).as_str());
    }
    out.append(lines[0].as_str());
    out.append("\n");
    let ghost first = out@;
    let mut i: usize = 1;
    proof {
        assert(texts.subrange(1, 1) =~= Seq::<Seq<char>>::empty());
        assert(first + desc_lines(texts.subrange(1, 1), desc_column as nat) =~= first);
    }
    while i < lines.len()
        invariant
            1 <= i <= lines.len(),
            texts == lines.deep_view(),
            out@ == first + desc_lines(texts.subrange(1, i as int), desc_column as nat),
        decreases lines.len() - i,
    {
        out.append(pad(desc_column).as_str());
        out.append(lines[i].as_str());
        out.append("\n");
        proof {
            let now = texts.subrange(1, i + 1);
            assert(now.drop_last() =~= texts.subrange(1, i as int));
            assert(now.last() == lines@[i as int]@);
            assert(out@ =~= first + desc_lines(now, desc_column as nat));
        }
        i += 1;
    }
    proof {
        assert(texts.subrange(1, i as int) =~= texts.skip(1));
        assert(out@ =~= start + row_text((row.name@, row.desc@), desc_column as nat));
    }
}

/// The widest of the names that fit in front of the widest column, with its
/// indent and gap.
pub open spec fn widest_fitting(rows: Seq<(Seq<char>, Seq<char>)>) -> Option<nat>
    decreases rows.len(),
{
    if rows.len() == 0 {
        None
    } else {
        let before = widest_fitting(rows.drop_last());
        let width = 4 + byte_len(rows.last().0) + 2;
        if width > 25 || (before matches Some(w) && w >= width) {
            before
        } else {
            Some(width)
        }
    }
}

/// The column that a section's descriptions start in.
pub open spec fn desc_column(rows: Seq<(Seq<char>, Seq<char>)>) -> nat {
    match widest_fitting(rows) {
        Some(w) => w,
        None => 25,
    }
}

/// The column stays within its bound, and a name that fits in front of the
/// widest column has its description on its own line, not on the next.
pub proof fn fitting_names_stay_inline(rows: Seq<(Seq<char>, Seq<char>)>, i: int)
    requires
        0 <= i < rows.len(),
    ensures
        desc_column(rows) <= 25,
        4 + byte_len(rows[i].0) + 2 <= 25 ==> 4 + byte_len(rows[i].0) + 2 <= desc_column(rows),
{
    lemma_widest(rows, i);
}

proof fn lemma_widest(rows: Seq<(Seq<char>, Seq<char>)>, i: int)
    requires
        0 <= i < rows.len(),
    ensures
        widest_fitting(rows) matches Some(w) ==> w <= 25,
        4 + byte_len(rows[i].0) + 2 <= 25 ==> (widest_fitting(rows) matches Some(w) && w >= 4
            + byte_len(rows[i].0) + 2),
    decreases rows.len(),
{
    if i < rows.len() - 1 {
        assert(rows.drop_last()[i] == rows[i]);
        lemma_widest(rows.drop_last(), i);
    } else if rows.len() > 1 {
        lemma_widest(rows.drop_last(), 0);
    } else {
        assert(rows.drop_last() =~= Seq::<(Seq<char>, Seq<char>)>::empty());
    }
}

/// The rows of a section, one after another.
pub open spec fn rows_text(rows: Seq<(Seq<char>, Seq<char>)>, column: nat) -> Seq<char>
    decreases rows.len(),
{
    if rows.len() == 0 {
        Seq::empty()
    } else {
        rows_text(rows.drop_last(), column) + row_text(rows.last(), column)
    }
}

/// A section: an empty line, its title and its rows; nothing where there are no
/// rows.
pub open spec fn section_text(title: Seq<char>, rows: Seq<(Seq<char>, Seq<char>)>) -> Seq<char> {
    if rows.len() == 0 {
        Seq::empty()
    } else {
        "\n"@ + title + "\n"@ + rows_text(rows, desc_column(rows))
    }
}

fn section_column(rows: &[Row]) -> (r: usize)
    ensures
        r == desc_column(row_texts(rows@)),
{
    let ghost texts = row_texts(rows@);
    let mut widest: Option<usize> = None;
    let mut i: usize = 0;
    assert(texts.take(0) =~= Seq::<(Seq<char>, Seq<char>)>::empty());
    while i < rows.len()
        invariant
            i <= rows.len(),
            texts == row_texts(rows@),
            match widest {
                Some(w) => widest_fitting(texts.take(i as int)) == Some(w as nat) && w <= 25,
                None => widest_fitting(texts.take(i as int)) is None,
            },
        decreases rows.len() - i,
    {
        proof {
            assert(texts.take(i + 1).drop_last() =~= texts.take(i as int));
            assert(texts.take(i + 1).last() == (rows@[i as int].name@, rows@[i as int].desc@));
        }
        let name: usize = text_width(rows[i].name);
        if name <= MAX_DESC_COLUMN - 4 - NAME_GAP {
            let width: usize = 4 + name + NAME_GAP;
            match widest {
                Some(w) => {
                    if w < width {
                        widest = Some(width);
                    }
                },
                None => {
                    widest = Some(width);
                },
            }
        }
        i += 1;
    }
    assert(texts.take(i as int) =~= texts);
    match widest {
        Some(w) => w,
        None => MAX_DESC_COLUMN,
    }
}

/// Append a section, its descriptions lined up under each other.
pub fn render_section(out: &mut String, title: &str, rows: &[Row])
    ensures
        final(out)@ == old(out)@ + section_text(title@, row_texts(rows@)),
{
    let ghost start = out@;
    let ghost texts = row_texts(rows@);
    if rows.len() == 0 {
        assert(out@ =~= start + section_text(title@, texts));
        return;
    }
    let column: usize = section_column(rows);
    out.append("\n");
    out.append(title);
    out.append("\n");
    let ghost lead = out@;
    let mut i: usize = 0;
    proof {
        assert(texts.take(0) =~= Seq::<(Seq<char>, Seq<char>)>::empty());
        assert(lead + rows_text(texts.take(0), column as nat) =~= lead);
    }
    while i < rows.len()
        invariant
            i <= rows.len(),
            texts == row_texts(rows@),
            out@ == lead + rows_text(texts.take(i as int), column as nat),
        decreases rows.len() - i,
    {
        render_row(out, &rows[i], column);
        proof {
            let now = texts.take(i + 1);
            assert(now.drop_last() =~= texts.take(i as int));
            assert(now.last() == (rows@[i as int].name@, rows@[i as int].desc@));
            assert(out@ =~= lead + rows_text(now, column as nat));
        }
        i += 1;
    }
    proof {
        assert(texts.take(i as int) =~= texts);
        assert(out@ =~= start + section_text(title@, texts));
    }
}

/// A line of its own, where there is something to say.
pub open spec fn optional_line(s: Seq<char>) -> Seq<char> {
    if s.len() == 0 {
        Seq::empty()
    } else {
        s + "\n"@
    }
}

/// Free text after an empty line, where there is something to say.
pub open spec fn optional_paragraph(s: Seq<char>) -> Seq<char> {
    if s.len() == 0 {
        Seq::empty()
    } else {
        "\n"@ + s + "\n"@
    }
}

/// The options that every page shows.
pub open spec fn global_options() -> Seq<(Seq<char>, Seq<char>)> {
    seq![
        (
            "--socket PATH"@,
            "Control socket path. Precedence:\n--socket > [daemon].socket in config >\n$XDG_STATE_HOME/cache-warden/control.sock"@,
        ),
        ("--help"@, "Show this help message"@),
        ("--version"@, "Show version"@),
    ]
}

/// The environment variables that every page shows.
pub open spec fn environment() -> Seq<(Seq<char>, Seq<char>)> {
    seq![
        ("CACHE_WARDEN_CONFIG"@, "Explicit config file path (highest config priority)"@),
        (
            "XDG_CONFIG_HOME"@,
            "Base dir for the config file\n($XDG_CONFIG_HOME/cache-warden/config.toml)"@,
        ),
        ("XDG_STATE_HOME"@, "Base dir for the default control socket path"@),
        (
            "CACHE_WARDEN_DRY_RUN"@,
            "Default to dry-run for kv get / run / inject when set\n(1/true/yes/on); a --reveal flag still overrides it"@,
        ),
        ("EDITOR / VISUAL"@, "Editor launched by `config edit`"@),
    ]
}

/// A whole page.
pub open spec fn page_text(page: HelpText) -> Seq<char> {
    page.heading + "\n"@ + optional_line(page.summary) + "\n"@ + "Usage:\n"@ + "    "@ + page.usage
        + "\n"@ + section_text("Commands:"@, page.subcommands) + section_text(
        "Options:"@,
        page.options,
    ) + optional_paragraph(page.detail) + (if page.show_global {
        section_text("Global options:"@, global_options()) + section_text(
            "Environment:"@,
            environment(),
        )
    } else {
        Seq::empty()
    })
}

fn global_rows() -> (r: &'static [Row])
    ensures
        row_texts(r@) == global_options(),
{
    let rows: &'static [Row] = &[
        Row {
            name: "--socket PATH",
            desc: "Control socket path. Precedence:\n--socket > [daemon].socket in config >\n$XDG_STATE_HOME/cache-warden/control.sock",
        },
        Row { name: "--help", desc: "Show this help message" },
        Row { name: "--version", desc: "Show version" },
    ];
    assert(row_texts(rows@) =~= global_options());
    rows
}

fn environment_rows() -> (r: &'static [Row])
    ensures
        row_texts(r@) == environment(),
{
    let rows: &'static [Row] = &[
        Row {
            name: "CACHE_WARDEN_CONFIG",
            desc: "Explicit config file path (highest config priority)",
        },
        Row {
            name: "XDG_CONFIG_HOME",
            desc: "Base dir for the config file\n($XDG_CONFIG_HOME/cache-warden/config.toml)",
        },
        Row { name: "XDG_STATE_HOME", desc: "Base dir for the default control socket path" },
        Row {
            name: "CACHE_WARDEN_DRY_RUN",
            desc: "Default to dry-run for kv get / run / inject when set\n(1/true/yes/on); a --reveal flag still overrides it",
        },
        Row { name: "EDITOR / VISUAL", desc: "Editor launched by `config edit`" },
    ];
    assert(row_texts(rows@) =~= environment());
    rows
}

impl HelpSpec {
    /// The whole page.
    pub fn render(&self) -> (r: String)
        ensures
            r@ == page_text(self@),
    {
        let mut out = String::new();
        out.append(self.heading);
        out.append("\n");
        if !self.summary.is_empty() {
            out.append(self.summary);
            out.append("\n");
        }
        out.append("\n");
        out.append("Usage:\n");
        out.append(INDENT);
        out.append(self.usage);
        out.append("\n");
        proof {
            let p = self@;
            assert(out@ =~= p.heading + "\n"@ + optional_line(p.summary) + "\n"@ + "Usage:\n"@
                + "    "@ + p.usage + "\n"@);
        }
        render_section(&mut out, "Commands:", self.subcommands);
        render_section(&mut out, "Options:", self.options);
        if !self.detail.is_empty() {
            out.append("\n");
            out.append(self.detail);
            out.append("\n");
        }
        if self.show_global {
            render_section(&mut out, "Global options:", global_rows());
            render_section(&mut out, "Environment:", environment_rows());
        }
        assert(out@ =~= page_text(self@));
        out
    }
}

/// The free text of the `daemon` page.
pub const DAEMON_DETAIL: &'static str = "register / unregister / status manage a per-user service (launchd LaunchAgent on
macOS, `systemd --user` on Linux). register writes the service definition and
starts it now + at login; it is idempotent (re-run to update the binary path or
config). The register-time config path is baked into the definition so the
service uses the same config that was in effect when you registered (DR-0019).";

/// The free text of the `daemon_register` page.
pub const DAEMON_REGISTER_DETAIL: &'static str = "register writes the service definition (launchd plist or systemd unit) and loads
it so the daemon starts now and at every login. It is idempotent: re-running
updates the definition (binary path, socket, baked config) and restarts the
service — this is the main way to point the service at a rebuilt binary.

The binary path is the absolute path of the running executable; the config path
is whatever the loader resolves at register time ($CACHE_WARDEN_CONFIG > XDG >
~/.config), baked in as CACHE_WARDEN_CONFIG so the service does not silently pick
up a different config. A minimal PATH is baked in so `op` is found.

Linux: `systemd --user` services stop at logout unless lingering is enabled;
register prints a hint to run `loginctl enable-linger` when it is off (it never
enables it for you — that may require admin). Logs: macOS writes
~/Library/Logs/cache-warden/daemon.log; Linux uses journald.";

/// The free text of the `daemon_unregister` page.
pub const DAEMON_UNREGISTER_DETAIL: &'static str = "Stops the service, unloads it from the service manager, and deletes its
definition file. A label that is not registered is a no-op (idempotent).";

/// The free text of the `daemon_status` page.
pub const DAEMON_STATUS_DETAIL: &'static str = "Reports whether the service definition is installed, whether the service manager
reports it running, its pid, and the definition file path — a one-screen table,
the same shape on macOS and Linux. This is distinct from the top-level
`cache-warden status`, which lists cache entries (DR-0019).";

/// The free text of the `kv` page.
pub const KV_DETAIL: &'static str = "Every kv subcommand accepts `--namespace NS` to select the KV namespace
(DR-0017). The default resolves as: --namespace > CACHE_WARDEN_NAMESPACE >
[cli].namespace > \"default\". KEY and NS are identifiers ([A-Za-z0-9_]+); a
`ns/key` form inside a KEY argument is rejected — the flag is the only path.

Every kv subcommand accepts a `--` separator: everything after it is taken as
positional arguments and never interpreted as an option, so option-looking key
names stay safe (`kv get -- --weird-key`, `kv del -- \"$key\"`). One
intersection: in `kv define`, a `--command` consumes the rest of the line, so
it cannot be combined with a key that itself needs `--`.";

/// The free text of the `kv_define` page.
pub const KV_DEFINE_DETAIL: &'static str = "The command is NOT run at define time; the value is produced lazily on the
first `kv get`. Defining is idempotent under an exact match (same argv/URI +
TTL is a no-op); a conflicting redefinition is rejected — delete it first with
`kv del KEY --with-define`, then re-define.

With --type otp the stored value is a TOTP *seed* (raw base32 or an otpauth://
URI). `kv get` derives the current code from the seed and the wall clock; the
seed itself is never returned (write-only). Explicit --otp-* flags override any
parameters read from an otpauth:// URI. A `--type otp` source must point at the
seed field (plain op://vault/item/field), NOT `?attribute=otp` (which returns a
computed 30s code, not the seed) — that combination is rejected.

--defs FILE bulk-registers every [kv.NAME] in a TOML file (same grammar as the
config [kv.*] section: command + soft-ttl / hard-ttl; no inline values, no
preload). Each clashing key is reported on its own; one conflict does not stop
the others. There is no automatic discovery — only the files you pass are read
(a conventional name is .cache-warden.toml, but it is never loaded implicitly).
An entry may pin itself with `namespace = \"NS\"` (absolute); without the field
it follows this invocation's --namespace (DR-0017). Note: TOML table keys are
unique, so one file cannot define the same NAME twice in different namespaces.";

/// The free text of the `kv_set` page.
pub const KV_SET_DETAIL: &'static str = "`kv set` injects a literal, opaque value only. To register a regenerable
command source, use `kv define` instead.

VALUE is positional: `kv set DB hunter2`. When VALUE is omitted the bytes are
read from stdin (binary safe): `op read op://v/i/pw | kv set DB`. Reading from
a terminal is refused — if stdin is a TTY and no VALUE is given, the command
errors immediately instead of hanging.

A VALUE in argv is visible to `ps` and lands in your shell history, so prefer
piping stdin for real secrets. A value containing NUL bytes (full binary) can
only come via stdin (argv cannot carry NUL).

Everything after `--` is positional, never an option: `kv set -- --weird-key v`.

Value types (otp) live on definitions, not on set values: a typed key must be
regenerable, so register it with `kv define KEY --type otp ...`. `kv set`
rejects `--type` / `--otp-*` and points you there.";

/// The free text of the `kv_get` page.
pub const KV_GET_DETAIL: &'static str = "By default `kv get` REVEALS the real value (raw bytes to stdout). For a safe
check, use --dry-run: it runs the full retrieval chain (and so has side
effects — upstream execution, re-authentication / TouchID, cache warming) but
returns only a mask, never the value. On failure --dry-run prints
<cache-warden:NS/KEY:failed> and exits non-zero (masks always show the
resolved absolute NS/KEY).";

/// The free text of the `run_cmd` page.
pub const RUN_CMD_DETAIL: &'static str = "By default `run` REVEALS real values. For a safe check, use --dry-run: it runs
the full retrieval chain — with side effects (upstream execution,
re-authentication / TouchID, cache warming) — but injects only masks, never the
value, and exits non-zero if any reference fails.

Only env values that are ENTIRELY a reference are substituted (whole-value
rule). References are cache-warden://[NS/]KEY: an unqualified KEY resolves into
this invocation's namespace, a qualified NS/KEY is absolute (DR-0017). argv is
never an injection face: a reference-looking token after `--` is passed
verbatim with a warning (use --env NAME=cache-warden://KEY). On success `run`
execs the command (no parent lingers holding secrets).";

/// The free text of the `inject_cmd` page.
pub const INJECT_CMD_DETAIL: &'static str = "By default `inject` REVEALS real values. For a safe check, use --dry-run: it
runs the full retrieval chain — with side effects (upstream execution,
re-authentication / TouchID, cache warming) — but emits only masks, never the
value, and exits non-zero if any reference fails.

References are cache-warden://[NS/]KEY, replaced as substrings (embedded
composition is allowed, unlike `run`'s whole-value env rule): an unqualified
KEY resolves into this invocation's namespace, a qualified NS/KEY is absolute
(DR-0017). Processing is byte-oriented and binary safe. In reveal mode it is
fail-closed: nothing is written if any reference fails.";

/// The free text of the `kv_list` page.
pub const KV_LIST_DETAIL: &'static str = "By default only the current namespace's keys are listed (names shown without
the NS/ prefix). --all-namespaces lists everything as NS/KEY (DR-0017).";

/// The free text of the `kv_pin` page.
pub const KV_PIN_DETAIL: &'static str = "Hold the value Active for DUR (e.g. 8h), suppressing both soft and hard
expiry until then. Useful before a long unattended run so an overnight hard
expiry can't interrupt it. Re-authentication is always required (pinning
relaxes the TTL). `kv unpin <KEY>` removes the pin (no re-auth).
DUR uses the same grammar as the TTL flags: 1h, 30m, 45s, or bare seconds.";

/// What the `top` page says.
pub open spec fn top_page() -> HelpText {
    HelpText {
        heading: "cache-warden 0.1.0\nSecure secret cache: a TTL-managed, zeroize-backed key/value cache for secrets."@,
        summary: ""@,
        usage: "cache-warden <COMMAND> [OPTIONS]"@,
        subcommands: seq![
            ("daemon run"@, "Start the daemon in the foreground"@),
            ("daemon register"@, "Install the launchd/systemd user service (--print to preview)"@),
            ("daemon unregister"@, "Stop and remove the installed service"@),
            ("daemon status"@, "Show service registration / running state"@),
            ("ping"@, "Check that the daemon is alive"@),
            ("status"@, "Show daemon info and the (value-free) entry list"@),
            ("kv define <KEY> ..."@, "Register a regenerable definition (lazy)"@),
            ("kv set <KEY> [VALUE]"@, "Cache a static value (VALUE omitted = read stdin)"@),
            ("kv get <KEY>"@, "Fetch a cached value (regenerates if defined)"@),
            ("kv del <KEY>"@, "Delete a cached value (--with-define drops the definition)"@),
            ("kv list"@, "List cached key names"@),
            ("kv pin <KEY> <DUR>"@, "Hold a value Active for DUR, ignoring its TTL (re-auth)"@),
            ("kv unpin <KEY>"@, "Drop a pin, returning the value to normal TTL evaluation"@),
            ("run -- CMD ..."@, "Resolve env references then exec CMD (--dry-run to verify)"@),
            ("inject"@, "Substitute references in a template stream (--dry-run to verify)"@),
            ("config show"@, "Show the effective configuration"@),
            ("config path"@, "Show the config file path (or the search order)"@),
            ("config edit"@, "Open the config in $EDITOR"@),
        ],
        options: Seq::empty(),
        detail: ""@,
        show_global: true,
    }
}

/// Top-level help: command list + global + environment only (the per-command
/// option detail lives on each leaf's own page).
pub fn top() -> (r: HelpSpec)
    ensures
        r@ == top_page(),
{
    let page = HelpSpec {
        heading: "cache-warden 0.1.0\nSecure secret cache: a TTL-managed, zeroize-backed key/value cache for secrets.",
        summary: "",
        usage: "cache-warden <COMMAND> [OPTIONS]",
        subcommands: &[
            Row { name: "daemon run", desc: "Start the daemon in the foreground" },
            Row {
                name: "daemon register",
                desc: "Install the launchd/systemd user service (--print to preview)",
            },
            Row { name: "daemon unregister", desc: "Stop and remove the installed service" },
            Row { name: "daemon status", desc: "Show service registration / running state" },
            Row { name: "ping", desc: "Check that the daemon is alive" },
            Row { name: "status", desc: "Show daemon info and the (value-free) entry list" },
            Row { name: "kv define <KEY> ...", desc: "Register a regenerable definition (lazy)" },
            Row {
                name: "kv set <KEY> [VALUE]",
                desc: "Cache a static value (VALUE omitted = read stdin)",
            },
            Row { name: "kv get <KEY>", desc: "Fetch a cached value (regenerates if defined)" },
            Row {
                name: "kv del <KEY>",
                desc: "Delete a cached value (--with-define drops the definition)",
            },
            Row { name: "kv list", desc: "List cached key names" },
            Row {
                name: "kv pin <KEY> <DUR>",
                desc: "Hold a value Active for DUR, ignoring its TTL (re-auth)",
            },
            Row {
                name: "kv unpin <KEY>",
                desc: "Drop a pin, returning the value to normal TTL evaluation",
            },
            Row {
                name: "run -- CMD ...",
                desc: "Resolve env references then exec CMD (--dry-run to verify)",
            },
            Row {
                name: "inject",
                desc: "Substitute references in a template stream (--dry-run to verify)",
            },
            Row { name: "config show", desc: "Show the effective configuration" },
            Row { name: "config path", desc: "Show the config file path (or the search order)" },
            Row { name: "config edit", desc: "Open the config in $EDITOR" },
        ],
        options: &[],
        detail: "",
        show_global: true,
    };
    assert(page@.subcommands =~= top_page().subcommands);
    assert(page@.options =~= top_page().options);
    page
}

/// What the `daemon` page says.
pub open spec fn daemon_page() -> HelpText {
    HelpText {
        heading: "cache-warden daemon"@,
        summary: "Manage the cache-warden daemon process and service registration."@,
        usage: "cache-warden daemon <COMMAND> [OPTIONS]"@,
        subcommands: seq![
            ("run"@, "Start the daemon in the foreground"@),
            ("register"@, "Install the launchd/systemd user service (--print to preview)"@),
            ("unregister"@, "Stop and remove the installed service"@),
            ("status"@, "Show service registration / running state"@),
        ],
        options: Seq::empty(),
        detail: DAEMON_DETAIL@,
        show_global: true,
    }
}

/// The `daemon` group page.
pub fn daemon() -> (r: HelpSpec)
    ensures
        r@ == daemon_page(),
{
    let page = HelpSpec {
        heading: "cache-warden daemon",
        summary: "Manage the cache-warden daemon process and service registration.",
        usage: "cache-warden daemon <COMMAND> [OPTIONS]",
        subcommands: &[
            Row { name: "run", desc: "Start the daemon in the foreground" },
            Row {
                name: "register",
                desc: "Install the launchd/systemd user service (--print to preview)",
            },
            Row { name: "unregister", desc: "Stop and remove the installed service" },
            Row { name: "status", desc: "Show service registration / running state" },
        ],
        options: &[],
        detail: DAEMON_DETAIL,
        show_global: true,
    };
    assert(page@.subcommands =~= daemon_page().subcommands);
    assert(page@.options =~= daemon_page().options);
    page
}

/// What the `daemon_run` page says.
pub open spec fn daemon_run_page() -> HelpText {
    HelpText {
        heading: "cache-warden daemon run"@,
        summary: "Start the daemon in the foreground."@,
        usage: "cache-warden daemon run [OPTIONS]"@,
        subcommands: Seq::empty(),
        options: Seq::empty(),
        detail: ""@,
        show_global: true,
    }
}

/// `daemon run` leaf page.
pub fn daemon_run() -> (r: HelpSpec)
    ensures
        r@ == daemon_run_page(),
{
    let page = HelpSpec {
        heading: "cache-warden daemon run",
        summary: "Start the daemon in the foreground.",
        usage: "cache-warden daemon run [OPTIONS]",
        subcommands: &[],
        options: &[],
        detail: "",
        show_global: true,
    };
    assert(page@.subcommands =~= daemon_run_page().subcommands);
    assert(page@.options =~= daemon_run_page().options);
    page
}

/// What the `daemon_register` page says.
pub open spec fn daemon_register_page() -> HelpText {
    HelpText {
        heading: "cache-warden daemon register"@,
        summary: "Install and start the per-user service (launchd / systemd --user)."@,
        usage: "cache-warden daemon register [--socket PATH] [--label NAME] [--print]"@,
        subcommands: Seq::empty(),
        options: seq![
            (
                "--socket PATH"@,
                "Bake `--socket PATH` into the service start command\n(the service binds this control socket)"@,
            ),
            (
                "--label NAME"@,
                "Service label (default: com.github.kawaz.cache-warden on\nmacOS, cache-warden on Linux). Use to run multiple\ninstances side by side"@,
            ),
            (
                "--print"@,
                "Render the service definition to stdout and install\nnothing (audit / dry-run)"@,
            ),
        ],
        detail: DAEMON_REGISTER_DETAIL@,
        show_global: true,
    }
}

/// `daemon register` leaf page.
pub fn daemon_register() -> (r: HelpSpec)
    ensures
        r@ == daemon_register_page(),
{
    let page = HelpSpec {
        heading: "cache-warden daemon register",
        summary: "Install and start the per-user service (launchd / systemd --user).",
        usage: "cache-warden daemon register [--socket PATH] [--label NAME] [--print]",
        subcommands: &[],
        options: &[
            Row {
                name: "--socket PATH",
                desc: "Bake `--socket PATH` into the service start command\n(the service binds this control socket)",
            },
            Row {
                name: "--label NAME",
                desc: "Service label (default: com.github.kawaz.cache-warden on\nmacOS, cache-warden on Linux). Use to run multiple\ninstances side by side",
            },
            Row {
                name: "--print",
                desc: "Render the service definition to stdout and install\nnothing (audit / dry-run)",
            },
        ],
        detail: DAEMON_REGISTER_DETAIL,
        show_global: true,
    };
    assert(page@.subcommands =~= daemon_register_page().subcommands);
    assert(page@.options =~= daemon_register_page().options);
    page
}

/// What the `daemon_unregister` page says.
pub open spec fn daemon_unregister_page() -> HelpText {
    HelpText {
        heading: "cache-warden daemon unregister"@,
        summary: "Stop, unload, and delete the installed service."@,
        usage: "cache-warden daemon unregister [--label NAME]"@,
        subcommands: Seq::empty(),
        options: seq![
            ("--label NAME"@, "Service label to remove (default: the per-OS default label)"@),
        ],
        detail: DAEMON_UNREGISTER_DETAIL@,
        show_global: true,
    }
}

/// `daemon unregister` leaf page.
pub fn daemon_unregister() -> (r: HelpSpec)
    ensures
        r@ == daemon_unregister_page(),
{
    let page = HelpSpec {
        heading: "cache-warden daemon unregister",
        summary: "Stop, unload, and delete the installed service.",
        usage: "cache-warden daemon unregister [--label NAME]",
        subcommands: &[],
        options: &[
            Row {
                name: "--label NAME",
                desc: "Service label to remove (default: the per-OS default label)",
            },
        ],
        detail: DAEMON_UNREGISTER_DETAIL,
        show_global: true,
    };
    assert(page@.subcommands =~= daemon_unregister_page().subcommands);
    assert(page@.options =~= daemon_unregister_page().options);
    page
}

/// What the `daemon_status` page says.
pub open spec fn daemon_status_page() -> HelpText {
    HelpText {
        heading: "cache-warden daemon status"@,
        summary: "Show the service registration / running state."@,
        usage: "cache-warden daemon status [--label NAME]"@,
        subcommands: Seq::empty(),
        options: seq![
            ("--label NAME"@, "Service label to query (default: the per-OS default label)"@),
        ],
        detail: DAEMON_STATUS_DETAIL@,
        show_global: true,
    }
}

/// `daemon status` leaf page.
pub fn daemon_status() -> (r: HelpSpec)
    ensures
        r@ == daemon_status_page(),
{
    let page = HelpSpec {
        heading: "cache-warden daemon status",
        summary: "Show the service registration / running state.",
        usage: "cache-warden daemon status [--label NAME]",
        subcommands: &[],
        options: &[
            Row {
                name: "--label NAME",
                desc: "Service label to query (default: the per-OS default label)",
            },
        ],
        detail: DAEMON_STATUS_DETAIL,
        show_global: true,
    };
    assert(page@.subcommands =~= daemon_status_page().subcommands);
    assert(page@.options =~= daemon_status_page().options);
    page
}

/// What the `kv` page says.
pub open spec fn kv_page() -> HelpText {
    HelpText {
        heading: "cache-warden kv"@,
        summary: "Manage cached key/value secrets."@,
        usage: "cache-warden kv <COMMAND> [OPTIONS]"@,
        subcommands: seq![
            ("define"@, "Register a regenerable definition (lazy)"@),
            ("set"@, "Cache a static value"@),
            ("get"@, "Fetch a cached value (regenerates if defined)"@),
            ("del"@, "Delete a cached value (--with-define drops the definition)"@),
            ("list"@, "List cached key names"@),
            ("pin"@, "Hold a value Active for DUR, ignoring its TTL (re-auth)"@),
            ("unpin"@, "Drop a pin, returning the value to normal TTL evaluation"@),
        ],
        options: Seq::empty(),
        detail: KV_DETAIL@,
        show_global: true,
    }
}

/// The `kv` group page.
pub fn kv() -> (r: HelpSpec)
    ensures
        r@ == kv_page(),
{
    let page = HelpSpec {
        heading: "cache-warden kv",
        summary: "Manage cached key/value secrets.",
        usage: "cache-warden kv <COMMAND> [OPTIONS]",
        subcommands: &[
            Row { name: "define", desc: "Register a regenerable definition (lazy)" },
            Row { name: "set", desc: "Cache a static value" },
            Row { name: "get", desc: "Fetch a cached value (regenerates if defined)" },
            Row { name: "del", desc: "Delete a cached value (--with-define drops the definition)" },
            Row { name: "list", desc: "List cached key names" },
            Row { name: "pin", desc: "Hold a value Active for DUR, ignoring its TTL (re-auth)" },
            Row { name: "unpin", desc: "Drop a pin, returning the value to normal TTL evaluation" },
        ],
        options: &[],
        detail: KV_DETAIL,
        show_global: true,
    };
    assert(page@.subcommands =~= kv_page().subcommands);
    assert(page@.options =~= kv_page().options);
    page
}

/// What the `kv_define` page says.
pub open spec fn kv_define_page() -> HelpText {
    HelpText {
        heading: "cache-warden kv define"@,
        summary: "Register a regenerable definition for a key (lazy; DR-0014)."@,
        usage: "cache-warden kv define (<KEY> (--command ARGV... | --source URI) | --defs FILE...) [OPTIONS]"@,
        subcommands: Seq::empty(),
        options: seq![
            (
                "--command ARGV..."@,
                "Run ARGV; its stdout is the value (regenerable).\nConsumes everything after it, so it must come last"@,
            ),
            ("--command-cwd PATH"@, "Working directory for --command (place before --command)"@),
            ("--command-env N=V"@, "Env overlay for --command (repeatable; before --command)"@),
            ("--source URI"@, "An op:// source URI (lowered to `op read <URI>`)"@),
            (
                "--defs FILE"@,
                "Register every [kv.NAME] in a TOML defs file at once\n(repeatable). Cannot be combined with KEY /\n--command / --source"@,
            ),
            (
                "--namespace NS"@,
                "KV namespace (default: CACHE_WARDEN_NAMESPACE >\n[cli].namespace > \"default\"; DR-0017)"@,
            ),
            ("--soft-ttl DUR"@, "Soft TTL (re-auth to extend). e.g. 1h, 30m, 45s, 86400"@),
            ("--hard-ttl DUR"@, "Hard TTL (value zeroized at expiry)"@),
            (
                "--type otp"@,
                "Mark the value as a TOTP seed: get derives a code\n(the seed is never returned; write-only)"@,
            ),
            ("--otp-digits N"@, "OTP code length (default 6; requires --type otp)"@),
            ("--otp-period SEC"@, "OTP time step in seconds (default 30)"@),
            ("--otp-algorithm A"@, "OTP hash: sha1 (default) / sha256 / sha512"@),
        ],
        detail: KV_DEFINE_DETAIL@,
        show_global: true,
    }
}

/// `kv define` leaf page.
pub fn kv_define() -> (r: HelpSpec)
    ensures
        r@ == kv_define_page(),
{
    let page = HelpSpec {
        heading: "cache-warden kv define",
        summary: "Register a regenerable definition for a key (lazy; DR-0014).",
        usage: "cache-warden kv define (<KEY> (--command ARGV... | --source URI) | --defs FILE...) [OPTIONS]",
        subcommands: &[],
        options: &[
            Row {
                name: "--command ARGV...",
                desc: "Run ARGV; its stdout is the value (regenerable).\nConsumes everything after it, so it must come last",
            },
            Row {
                name: "--command-cwd PATH",
                desc: "Working directory for --command (place before --command)",
            },
            Row {
                name: "--command-env N=V",
                desc: "Env overlay for --command (repeatable; before --command)",
            },
            Row { name: "--source URI", desc: "An op:// source URI (lowered to `op read <URI>`)" },
            Row {
                name: "--defs FILE",
                desc: "Register every [kv.NAME] in a TOML defs file at once\n(repeatable). Cannot be combined with KEY /\n--command / --source",
            },
            Row {
                name: "--namespace NS",
                desc: "KV namespace (default: CACHE_WARDEN_NAMESPACE >\n[cli].namespace > \"default\"; DR-0017)",
            },
            Row {
                name: "--soft-ttl DUR",
                desc: "Soft TTL (re-auth to extend). e.g. 1h, 30m, 45s, 86400",
            },
            Row { name: "--hard-ttl DUR", desc: "Hard TTL (value zeroized at expiry)" },
            Row {
                name: "--type otp",
                desc: "Mark the value as a TOTP seed: get derives a code\n(the seed is never returned; write-only)",
            },
            Row {
                name: "--otp-digits N",
                desc: "OTP code length (default 6; requires --type otp)",
            },
            Row { name: "--otp-period SEC", desc: "OTP time step in seconds (default 30)" },
            Row { name: "--otp-algorithm A", desc: "OTP hash: sha1 (default) / sha256 / sha512" },
        ],
        detail: KV_DEFINE_DETAIL,
        show_global: true,
    };
    assert(page@.subcommands =~= kv_define_page().subcommands);
    assert(page@.options =~= kv_define_page().options);
    page
}

/// What the `kv_set` page says.
pub open spec fn kv_set_page() -> HelpText {
    HelpText {
        heading: "cache-warden kv set"@,
        summary: "Cache a static value."@,
        usage: "cache-warden kv set [OPTIONS] [--] KEY [VALUE]"@,
        subcommands: Seq::empty(),
        options: seq![
            (
                "--namespace NS"@,
                "KV namespace (default: CACHE_WARDEN_NAMESPACE >\n[cli].namespace > \"default\"; DR-0017)"@,
            ),
            ("--soft-ttl DUR"@, "Soft TTL (re-auth to extend). e.g. 1h, 30m, 45s, 86400"@),
            ("--hard-ttl DUR"@, "Hard TTL (value zeroized at expiry)"@),
        ],
        detail: KV_SET_DETAIL@,
        show_global: true,
    }
}

/// `kv set` leaf page.
pub fn kv_set() -> (r: HelpSpec)
    ensures
        r@ == kv_set_page(),
{
    let page = HelpSpec {
        heading: "cache-warden kv set",
        summary: "Cache a static value.",
        usage: "cache-warden kv set [OPTIONS] [--] KEY [VALUE]",
        subcommands: &[],
        options: &[
            Row {
                name: "--namespace NS",
                desc: "KV namespace (default: CACHE_WARDEN_NAMESPACE >\n[cli].namespace > \"default\"; DR-0017)",
            },
            Row {
                name: "--soft-ttl DUR",
                desc: "Soft TTL (re-auth to extend). e.g. 1h, 30m, 45s, 86400",
            },
            Row { name: "--hard-ttl DUR", desc: "Hard TTL (value zeroized at expiry)" },
        ],
        detail: KV_SET_DETAIL,
        show_global: true,
    };
    assert(page@.subcommands =~= kv_set_page().subcommands);
    assert(page@.options =~= kv_set_page().options);
    page
}

/// What the `kv_get` page says.
pub open spec fn kv_get_page() -> HelpText {
    HelpText {
        heading: "cache-warden kv get"@,
        summary: "Fetch a cached value (raw bytes to stdout)."@,
        usage: "cache-warden kv get [--namespace NS] <KEY> [--dry-run | --reveal]"@,
        subcommands: Seq::empty(),
        options: seq![
            (
                "--namespace NS"@,
                "KV namespace (default: CACHE_WARDEN_NAMESPACE >\n[cli].namespace > \"default\"; DR-0017)"@,
            ),
            (
                "--dry-run"@,
                "Verify retrieval WITHOUT emitting the value: print a mask\n(<cache-warden:NS/KEY:masked>), running the full chain\n(lazy generate / extend / regenerate / re-auth)"@,
            ),
            (
                "--reveal"@,
                "Force real-value output (use when the default has been\nset to dry-run via config / CACHE_WARDEN_DRY_RUN)"@,
            ),
        ],
        detail: KV_GET_DETAIL@,
        show_global: true,
    }
}

/// `kv get` leaf page.
pub fn kv_get() -> (r: HelpSpec)
    ensures
        r@ == kv_get_page(),
{
    let page = HelpSpec {
        heading: "cache-warden kv get",
        summary: "Fetch a cached value (raw bytes to stdout).",
        usage: "cache-warden kv get [--namespace NS] <KEY> [--dry-run | --reveal]",
        subcommands: &[],
        options: &[
            Row {
                name: "--namespace NS",
                desc: "KV namespace (default: CACHE_WARDEN_NAMESPACE >\n[cli].namespace > \"default\"; DR-0017)",
            },
            Row {
                name: "--dry-run",
                desc: "Verify retrieval WITHOUT emitting the value: print a mask\n(<cache-warden:NS/KEY:masked>), running the full chain\n(lazy generate / extend / regenerate / re-auth)",
            },
            Row {
                name: "--reveal",
                desc: "Force real-value output (use when the default has been\nset to dry-run via config / CACHE_WARDEN_DRY_RUN)",
            },
        ],
        detail: KV_GET_DETAIL,
        show_global: true,
    };
    assert(page@.subcommands =~= kv_get_page().subcommands);
    assert(page@.options =~= kv_get_page().options);
    page
}

/// What the `run_cmd` page says.
pub open spec fn run_cmd_page() -> HelpText {
    HelpText {
        heading: "cache-warden run"@,
        summary: "Resolve cache-warden://KEY env references, then exec a command."@,
        usage: "cache-warden run [--namespace NS] [--env NAME=VALUE]... [--defs FILE]... [--dry-run | --reveal] -- CMD [ARGS...]"@,
        subcommands: Seq::empty(),
        options: seq![
            (
                "--namespace NS"@,
                "KV namespace (default: CACHE_WARDEN_NAMESPACE >\n[cli].namespace > \"default\"; DR-0017)"@,
            ),
            (
                "--env NAME=VALUE"@,
                "Add/override a child env var (repeatable). A value that is\nexactly cache-warden://[NS/]KEY is resolved; --env wins\nover the inherited environment"@,
            ),
            ("--defs FILE"@, "Register a TOML defs file before resolving (repeatable)"@),
            (
                "--dry-run"@,
                "Verify WITHOUT real values: exec with MASKED env\n(<cache-warden:KEY:masked>); non-zero exit if any ref fails"@,
            ),
            (
                "--reveal"@,
                "Force real values (use when the default has been set to\ndry-run via config / CACHE_WARDEN_DRY_RUN)"@,
            ),
        ],
        detail: RUN_CMD_DETAIL@,
        show_global: true,
    }
}

/// Top-level `run` leaf page.
pub fn run_cmd() -> (r: HelpSpec)
    ensures
        r@ == run_cmd_page(),
{
    let page = HelpSpec {
        heading: "cache-warden run",
        summary: "Resolve cache-warden://KEY env references, then exec a command.",
        usage: "cache-warden run [--namespace NS] [--env NAME=VALUE]... [--defs FILE]... [--dry-run | --reveal] -- CMD [ARGS...]",
        subcommands: &[],
        options: &[
            Row {
                name: "--namespace NS",
                desc: "KV namespace (default: CACHE_WARDEN_NAMESPACE >\n[cli].namespace > \"default\"; DR-0017)",
            },
            Row {
                name: "--env NAME=VALUE",
                desc: "Add/override a child env var (repeatable). A value that is\nexactly cache-warden://[NS/]KEY is resolved; --env wins\nover the inherited environment",
            },
            Row {
                name: "--defs FILE",
                desc: "Register a TOML defs file before resolving (repeatable)",
            },
            Row {
                name: "--dry-run",
                desc: "Verify WITHOUT real values: exec with MASKED env\n(<cache-warden:KEY:masked>); non-zero exit if any ref fails",
            },
            Row {
                name: "--reveal",
                desc: "Force real values (use when the default has been set to\ndry-run via config / CACHE_WARDEN_DRY_RUN)",
            },
        ],
        detail: RUN_CMD_DETAIL,
        show_global: true,
    };
    assert(page@.subcommands =~= run_cmd_page().subcommands);
    assert(page@.options =~= run_cmd_page().options);
    page
}

/// What the `inject_cmd` page says.
pub open spec fn inject_cmd_page() -> HelpText {
    HelpText {
        heading: "cache-warden inject"@,
        summary: "Substitute cache-warden://KEY references in a template stream."@,
        usage: "cache-warden inject [--namespace NS] [--in FILE] [--out FILE] [--defs FILE]... [--dry-run | --reveal]"@,
        subcommands: Seq::empty(),
        options: seq![
            (
                "--namespace NS"@,
                "KV namespace (default: CACHE_WARDEN_NAMESPACE >\n[cli].namespace > \"default\"; DR-0017)"@,
            ),
            ("--in FILE"@, "Read the template from FILE (default: stdin)"@),
            ("--out FILE"@, "Write the result to FILE, created 0600 (default: stdout)"@),
            ("--defs FILE"@, "Register a TOML defs file before resolving (repeatable)"@),
            (
                "--dry-run"@,
                "Verify WITHOUT real values: emit MASKS\n(<cache-warden:KEY:masked>); non-zero exit if any ref fails"@,
            ),
            (
                "--reveal"@,
                "Force real values (use when the default has been set to\ndry-run via config / CACHE_WARDEN_DRY_RUN)"@,
            ),
        ],
        detail: INJECT_CMD_DETAIL@,
        show_global: true,
    }
}

/// Top-level `inject` leaf page.
pub fn inject_cmd() -> (r: HelpSpec)
    ensures
        r@ == inject_cmd_page(),
{
    let page = HelpSpec {
        heading: "cache-warden inject",
        summary: "Substitute cache-warden://KEY references in a template stream.",
        usage: "cache-warden inject [--namespace NS] [--in FILE] [--out FILE] [--defs FILE]... [--dry-run | --reveal]",
        subcommands: &[],
        options: &[
            Row {
                name: "--namespace NS",
                desc: "KV namespace (default: CACHE_WARDEN_NAMESPACE >\n[cli].namespace > \"default\"; DR-0017)",
            },
            Row { name: "--in FILE", desc: "Read the template from FILE (default: stdin)" },
            Row {
                name: "--out FILE",
                desc: "Write the result to FILE, created 0600 (default: stdout)",
            },
            Row {
                name: "--defs FILE",
                desc: "Register a TOML defs file before resolving (repeatable)",
            },
            Row {
                name: "--dry-run",
                desc: "Verify WITHOUT real values: emit MASKS\n(<cache-warden:KEY:masked>); non-zero exit if any ref fails",
            },
            Row {
                name: "--reveal",
                desc: "Force real values (use when the default has been set to\ndry-run via config / CACHE_WARDEN_DRY_RUN)",
            },
        ],
        detail: INJECT_CMD_DETAIL,
        show_global: true,
    };
    assert(page@.subcommands =~= inject_cmd_page().subcommands);
    assert(page@.options =~= inject_cmd_page().options);
    page
}

/// What the `kv_del` page says.
pub open spec fn kv_del_page() -> HelpText {
    HelpText {
        heading: "cache-warden kv del"@,
        summary: "Delete a cached value (optionally its definition too)."@,
        usage: "cache-warden kv del [--namespace NS] <KEY> [--with-define]"@,
        subcommands: Seq::empty(),
        options: seq![
            (
                "--namespace NS"@,
                "KV namespace (default: CACHE_WARDEN_NAMESPACE >\n[cli].namespace > \"default\"; DR-0017)"@,
            ),
            (
                "--with-define"@,
                "Also drop the registered definition so the key will not\nregenerate on a later get (default: value only)"@,
            ),
        ],
        detail: ""@,
        show_global: true,
    }
}

/// `kv del` leaf page.
pub fn kv_del() -> (r: HelpSpec)
    ensures
        r@ == kv_del_page(),
{
    let page = HelpSpec {
        heading: "cache-warden kv del",
        summary: "Delete a cached value (optionally its definition too).",
        usage: "cache-warden kv del [--namespace NS] <KEY> [--with-define]",
        subcommands: &[],
        options: &[
            Row {
                name: "--namespace NS",
                desc: "KV namespace (default: CACHE_WARDEN_NAMESPACE >\n[cli].namespace > \"default\"; DR-0017)",
            },
            Row {
                name: "--with-define",
                desc: "Also drop the registered definition so the key will not\nregenerate on a later get (default: value only)",
            },
        ],
        detail: "",
        show_global: true,
    };
    assert(page@.subcommands =~= kv_del_page().subcommands);
    assert(page@.options =~= kv_del_page().options);
    page
}

/// What the `kv_list` page says.
pub open spec fn kv_list_page() -> HelpText {
    HelpText {
        heading: "cache-warden kv list"@,
        summary: "List cached key names (current namespace)."@,
        usage: "cache-warden kv list [--namespace NS] [--all-namespaces]"@,
        subcommands: Seq::empty(),
        options: seq![
            (
                "--namespace NS"@,
                "KV namespace (default: CACHE_WARDEN_NAMESPACE >\n[cli].namespace > \"default\"; DR-0017)"@,
            ),
            ("--all-namespaces"@, "List every namespace's keys in their composed NS/KEY form"@),
        ],
        detail: KV_LIST_DETAIL@,
        show_global: true,
    }
}

/// `kv list` leaf page.
pub fn kv_list() -> (r: HelpSpec)
    ensures
        r@ == kv_list_page(),
{
    let page = HelpSpec {
        heading: "cache-warden kv list",
        summary: "List cached key names (current namespace).",
        usage: "cache-warden kv list [--namespace NS] [--all-namespaces]",
        subcommands: &[],
        options: &[
            Row {
                name: "--namespace NS",
                desc: "KV namespace (default: CACHE_WARDEN_NAMESPACE >\n[cli].namespace > \"default\"; DR-0017)",
            },
            Row {
                name: "--all-namespaces",
                desc: "List every namespace's keys in their composed NS/KEY form",
            },
        ],
        detail: KV_LIST_DETAIL,
        show_global: true,
    };
    assert(page@.subcommands =~= kv_list_page().subcommands);
    assert(page@.options =~= kv_list_page().options);
    page
}

/// What the `kv_pin` page says.
pub open spec fn kv_pin_page() -> HelpText {
    HelpText {
        heading: "cache-warden kv pin"@,
        summary: "Hold a value Active for DUR, ignoring its TTL (re-auth)."@,
        usage: "cache-warden kv pin [--namespace NS] <KEY> <DUR>"@,
        subcommands: Seq::empty(),
        options: seq![
            (
                "--namespace NS"@,
                "KV namespace (default: CACHE_WARDEN_NAMESPACE >\n[cli].namespace > \"default\"; DR-0017)"@,
            ),
        ],
        detail: KV_PIN_DETAIL@,
        show_global: true,
    }
}

/// `kv pin` leaf page.
pub fn kv_pin() -> (r: HelpSpec)
    ensures
        r@ == kv_pin_page(),
{
    let page = HelpSpec {
        heading: "cache-warden kv pin",
        summary: "Hold a value Active for DUR, ignoring its TTL (re-auth).",
        usage: "cache-warden kv pin [--namespace NS] <KEY> <DUR>",
        subcommands: &[],
        options: &[
            Row {
                name: "--namespace NS",
                desc: "KV namespace (default: CACHE_WARDEN_NAMESPACE >\n[cli].namespace > \"default\"; DR-0017)",
            },
        ],
        detail: KV_PIN_DETAIL,
        show_global: true,
    };
    assert(page@.subcommands =~= kv_pin_page().subcommands);
    assert(page@.options =~= kv_pin_page().options);
    page
}

/// What the `kv_unpin` page says.
pub open spec fn kv_unpin_page() -> HelpText {
    HelpText {
        heading: "cache-warden kv unpin"@,
        summary: "Drop a pin, returning the value to normal TTL evaluation."@,
        usage: "cache-warden kv unpin [--namespace NS] <KEY>"@,
        subcommands: Seq::empty(),
        options: seq![
            (
                "--namespace NS"@,
                "KV namespace (default: CACHE_WARDEN_NAMESPACE >\n[cli].namespace > \"default\"; DR-0017)"@,
            ),
        ],
        detail: ""@,
        show_global: true,
    }
}

/// `kv unpin` leaf page.
pub fn kv_unpin() -> (r: HelpSpec)
    ensures
        r@ == kv_unpin_page(),
{
    let page = HelpSpec {
        heading: "cache-warden kv unpin",
        summary: "Drop a pin, returning the value to normal TTL evaluation.",
        usage: "cache-warden kv unpin [--namespace NS] <KEY>",
        subcommands: &[],
        options: &[
            Row {
                name: "--namespace NS",
                desc: "KV namespace (default: CACHE_WARDEN_NAMESPACE >\n[cli].namespace > \"default\"; DR-0017)",
            },
        ],
        detail: "",
        show_global: true,
    };
    assert(page@.subcommands =~= kv_unpin_page().subcommands);
    assert(page@.options =~= kv_unpin_page().options);
    page
}

/// What the `config` page says.
pub open spec fn config_page() -> HelpText {
    HelpText {
        heading: "cache-warden config"@,
        summary: "Inspect and edit the configuration."@,
        usage: "cache-warden config <COMMAND> [OPTIONS]"@,
        subcommands: seq![
            ("show"@, "Show the effective configuration"@),
            ("path"@, "Show the config file path (or the search order)"@),
            ("edit"@, "Open the config in $EDITOR"@),
        ],
        options: Seq::empty(),
        detail: ""@,
        show_global: true,
    }
}

/// The `config` group page.
pub fn config() -> (r: HelpSpec)
    ensures
        r@ == config_page(),
{
    let page = HelpSpec {
        heading: "cache-warden config",
        summary: "Inspect and edit the configuration.",
        usage: "cache-warden config <COMMAND> [OPTIONS]",
        subcommands: &[
            Row { name: "show", desc: "Show the effective configuration" },
            Row { name: "path", desc: "Show the config file path (or the search order)" },
            Row { name: "edit", desc: "Open the config in $EDITOR" },
        ],
        options: &[],
        detail: "",
        show_global: true,
    };
    assert(page@.subcommands =~= config_page().subcommands);
    assert(page@.options =~= config_page().options);
    page
}

/// What the `config_show` page says.
pub open spec fn config_show_page() -> HelpText {
    HelpText {
        heading: "cache-warden config show"@,
        summary: "Show the effective configuration."@,
        usage: "cache-warden config show"@,
        subcommands: Seq::empty(),
        options: Seq::empty(),
        detail: ""@,
        show_global: true,
    }
}

/// `config show` leaf page.
pub fn config_show() -> (r: HelpSpec)
    ensures
        r@ == config_show_page(),
{
    let page = HelpSpec {
        heading: "cache-warden config show",
        summary: "Show the effective configuration.",
        usage: "cache-warden config show",
        subcommands: &[],
        options: &[],
        detail: "",
        show_global: true,
    };
    assert(page@.subcommands =~= config_show_page().subcommands);
    assert(page@.options =~= config_show_page().options);
    page
}

/// What the `config_path` page says.
pub open spec fn config_path_page() -> HelpText {
    HelpText {
        heading: "cache-warden config path"@,
        summary: "Show the config file path (or the search order)."@,
        usage: "cache-warden config path"@,
        subcommands: Seq::empty(),
        options: Seq::empty(),
        detail: ""@,
        show_global: true,
    }
}

/// `config path` leaf page.
pub fn config_path() -> (r: HelpSpec)
    ensures
        r@ == config_path_page(),
{
    let page = HelpSpec {
        heading: "cache-warden config path",
        summary: "Show the config file path (or the search order).",
        usage: "cache-warden config path",
        subcommands: &[],
        options: &[],
        detail: "",
        show_global: true,
    };
    assert(page@.subcommands =~= config_path_page().subcommands);
    assert(page@.options =~= config_path_page().options);
    page
}

/// What the `config_edit` page says.
pub open spec fn config_edit_page() -> HelpText {
    HelpText {
        heading: "cache-warden config edit"@,
        summary: "Open the config in $EDITOR."@,
        usage: "cache-warden config edit"@,
        subcommands: Seq::empty(),
        options: Seq::empty(),
        detail: ""@,
        show_global: true,
    }
}

/// `config edit` leaf page.
pub fn config_edit() -> (r: HelpSpec)
    ensures
        r@ == config_edit_page(),
{
    let page = HelpSpec {
        heading: "cache-warden config edit",
        summary: "Open the config in $EDITOR.",
        usage: "cache-warden config edit",
        subcommands: &[],
        options: &[],
        detail: "",
        show_global: true,
    };
    assert(page@.subcommands =~= config_edit_page().subcommands);
    assert(page@.options =~= config_edit_page().options);
    page
}

/// Whether an argument asks for help.
pub open spec fn asks_for_help(args: Seq<Seq<char>>) -> bool {
    args.contains("--help"@) || args.contains("-h"@)
}

/// Whether an argument asks for help: `--help`, or `-h`.
pub fn wants_help(args: &[String]) -> (r: bool)
    ensures
        r == asks_for_help(args.deep_view()),
{
    text::list_has(args, "--help") || text::list_has(args, "-h")
}

} // verus!
