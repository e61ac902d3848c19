//! How replies are shown: plain lines, never a value except the one that was
//! asked for.

use vstd::prelude::*;

use crate::daemon::entries::EntryInfoView;
use crate::namespace;
use crate::text;
use crate::wire::{EntryInfo, ErrBody, ErrorKind, OkBody, OkPayload, Response, VaultStatusWire};

verus! {

/// What a failure is called.
pub open spec fn kind_label(kind: ErrorKind) -> Seq<char> {
    match kind {
        ErrorKind::BadRequest => "bad request"@,
        ErrorKind::NotFound => "not found"@,
        ErrorKind::AuthFailed => "auth failed"@,
        ErrorKind::NotRegenerable => "not regenerable"@,
        ErrorKind::HardExpired => "hard expired"@,
        ErrorKind::UpstreamFailed => "upstream failed"@,
        ErrorKind::Internal => "internal error"@,
        ErrorKind::RestartAborted => "restart aborted"@,
        ErrorKind::CasMismatch => "version conflict"@,
        ErrorKind::AlreadyClaimed => "already being refreshed"@,
        ErrorKind::ClaimTokenMismatch => "claim token mismatch"@,
        ErrorKind::VaultLocked => "vault locked"@,
        ErrorKind::VaultNotInitialized => "no vault"@,
    }
}

/// What a failure is called.
pub fn error_kind_str(kind: ErrorKind) -> (r: &'static str)
    ensures
        r@ == kind_label(kind),
{
    match kind {
        ErrorKind::BadRequest => "bad request",
        ErrorKind::NotFound => "not found",
        ErrorKind::AuthFailed => "auth failed",
        ErrorKind::NotRegenerable => "not regenerable",
        ErrorKind::HardExpired => "hard expired",
        ErrorKind::UpstreamFailed => "upstream failed",
        ErrorKind::Internal => "internal error",
        ErrorKind::RestartAborted => "restart aborted",
        ErrorKind::CasMismatch => "version conflict",
        ErrorKind::AlreadyClaimed => "already being refreshed",
        ErrorKind::ClaimTokenMismatch => "claim token mismatch",
        ErrorKind::VaultLocked => "vault locked",
        ErrorKind::VaultNotInitialized => "no vault",
    }
}

/// How a failure reply reads.
pub open spec fn failure_text(e: ErrBody) -> Seq<char> {
    kind_label(e.error.kind) + ": "@ + e.error.message@
}

/// How a failure reply reads.
pub fn describe_failure(e: &ErrBody) -> (r: String)
    ensures
        r@ == failure_text(*e),
{
    error_kind_str(e.error.kind).to_owned().concat(": ").concat(e.error.message.as_str())
}

/// A line to print.
#[derive(Debug, Clone, PartialEq, Eq)]
pub enum Line {
    /// To the output, which may be piped on.
    Out(String),
    /// To the person at the terminal.
    Note(String),
}

/// What a [`Line`] holds.
pub enum LineView {
    Out(Seq<char>),
    Note(Seq<char>),
}

impl DeepView for Line {
    type V = LineView;

    open spec fn deep_view(&self) -> LineView {
        match self {
            Line::Out(s) => LineView::Out(s@),
            Line::Note(s) => LineView::Note(s@),
        }
    }
}

fn push_line(lines: &mut Vec<Line>, line: Line)
    ensures
        final(lines).deep_view() == old(lines).deep_view().push(line.deep_view()),
{
    lines.push(line);
    assert(lines.deep_view() =~= old(lines).deep_view().push(line.deep_view()));
}

/// One text or none.
pub open spec fn optional(present: bool, s: Seq<char>) -> Seq<Seq<char>> {
    if present {
        seq![s]
    } else {
        Seq::empty()
    }
}

/// The hint about a backoff that is still running.
pub open spec fn backoff_hint(e: EntryInfoView) -> Seq<Seq<char>> {
    optional(
        e.backoff_until_secs is Some && e.backoff_until_secs->0 > 0,
        "backoff: "@ + text::decimal(e.backoff_until_secs->0 as nat) + "s"@,
    )
}

/// The hint about the constraints on who may read the value. Where nothing is
/// known of them, nothing is claimed.
pub open spec fn guard_hint(e: EntryInfoView) -> Seq<Seq<char>> {
    optional(
        e.guard_summary is Some && e.guard_summary->0.len() > 0,
        "guard: "@ + text::joined(e.guard_summary->0, ", "@),
    )
}

/// What `status` says of one entry behind its name and state.
pub open spec fn entry_attrs(e: EntryInfoView) -> Seq<Seq<char>> {
    seq![
        if e.regenerable {
            "regenerable"@
        } else {
            "static"@
        },
    ] + optional(e.value_type is Some, "type "@ + e.value_type->0) + optional(
        e.source is Some,
        "source "@ + e.source->0,
    ) + optional(e.defined, "defined"@) + seq![
        if e.has_value {
            "value present"@
        } else {
            "no value"@
        },
    ] + optional(
        e.pin_remaining_secs is Some,
        "pinned "@ + text::decimal(e.pin_remaining_secs->0 as nat) + "s"@,
    ) + backoff_hint(e) + guard_hint(e)
}

/// Append the hint about a running backoff.
fn push_backoff(out: &mut Vec<String>, e: &EntryInfo)
    ensures
        final(out).deep_view() == old(out).deep_view() + backoff_hint(e.deep_view()),
{
    if let Some(secs) = e.backoff_until_secs {
        if secs > 0 {
            text::push_text(
                out,
                "backoff: ".to_owned().concat(text::number_text(secs).as_str()).concat("s"),
            );
        }
    }
    assert(out.deep_view() =~= old(out).deep_view() + backoff_hint(e.deep_view()));
}

/// Append the hint about the constraints.
fn push_guard(out: &mut Vec<String>, e: &EntryInfo)
    ensures
        final(out).deep_view() == old(out).deep_view() + guard_hint(e.deep_view()),
{
    if let Some(labels) = &e.guard_summary {
        assert(labels.deep_view() == e.deep_view().guard_summary->0);
        if labels.len() > 0 {
            let slice = labels.as_slice();
            assert(slice.deep_view() =~= labels.deep_view());
            text::push_text(
                out,
                "guard: ".to_owned().concat(text::join(slice, ", ").as_str()),
            );
        }
    }
    assert(out.deep_view() =~= old(out).deep_view() + guard_hint(e.deep_view()));
}

/// What `status` says of one entry behind its name and state.
pub fn format_entry_attrs(e: &EntryInfo) -> (r: Vec<String>)
    ensures
        r.deep_view() == entry_attrs(e.deep_view()),
{
    let ghost v = e.deep_view();
    let mut out: Vec<String> = Vec::new();
    assert(out.deep_view() =~= Seq::<Seq<char>>::empty());
    text::push_text(
        &mut out,
        if e.regenerable {
            "regenerable".to_owned()
        } else {
            "static".to_owned()
        },
    );
    if let Some(t) = &e.value_type {
        text::push_text(&mut out, "type ".to_owned().concat(t.as_str()));
    }
    if let Some(src) = &e.source {
        text::push_text(&mut out, "source ".to_owned().concat(src.as_str()));
    }
    if e.defined {
        text::push_text(&mut out, "defined".to_owned());
    }
    text::push_text(
        &mut out,
        if e.has_value {
            "value present".to_owned()
        } else {
            "no value".to_owned()
        },
    );
    if let Some(secs) = e.pin_remaining_secs {
        text::push_text(
            &mut out,
            "pinned ".to_owned().concat(text::number_text(secs).as_str()).concat("s"),
        );
    }
    let ghost before = out.deep_view();
    push_backoff(&mut out, e);
    push_guard(&mut out, e);
    assert(out.deep_view() =~= before + backoff_hint(v) + guard_hint(v));
    assert(out.deep_view() =~= entry_attrs(v));
    out
}

/// The line of `status` about one entry.
pub open spec fn entry_line(e: EntryInfoView) -> Seq<char> {
    "  "@ + e.name + " ["@ + e.state + "] ("@ + text::joined(entry_attrs(e), ", "@) + ")"@
}

/// The lines of `status` about the entries.
pub open spec fn entry_lines(entries: Seq<EntryInfoView>) -> Seq<LineView> {
    if entries.len() == 0 {
        seq![LineView::Out("entries: (none)"@)]
    } else {
        seq![LineView::Out("entries:"@)] + entries.map_values(
            |e: EntryInfoView| LineView::Out(entry_line(e)),
        )
    }
}

/// The lines that a success prints. `guidance` is what is said about keeping a
/// recovery code.
pub open spec fn payload_lines(payload: OkPayload, guidance: Seq<char>) -> Seq<LineView> {
    match payload {
        OkPayload::Pong => seq![LineView::Out("pong"@)],
        OkPayload::CeremonyOpened { url, expires_in_secs } => seq![
            LineView::Note(
                "open this in a browser within "@ + text::decimal(expires_in_secs as nat)
                    + "s to register the passkey:"@,
            ),
            LineView::Out(url@),
        ],
        OkPayload::Stored { version, .. } => seq![
            LineView::Out(
                match version {
                    Some(v) => "ok (version "@ + text::decimal(v as nat) + ")"@,
                    None => "ok"@,
                },
            ),
        ],
        OkPayload::Claimed { version, claim_token, claim_expires_in_secs } => seq![
            LineView::Note(
                "claimed key at version "@ + text::decimal(version as nat) + " for "@
                    + text::decimal(claim_expires_in_secs as nat) + "s"@,
            ),
            LineView::Out(claim_token@),
        ],
        OkPayload::Unclaimed => seq![LineView::Out("unclaimed"@)],
        OkPayload::VaultInitialized { vault_id, recovery_code } => seq![
            LineView::Note("vault "@ + vault_id@ + " created."@),
            LineView::Out(recovery_code@),
            LineView::Note("\n"@ + guidance),
        ],
        OkPayload::VaultUnlocked { entries_restored } => seq![
            LineView::Out(
                "unlocked ("@ + text::decimal(entries_restored as nat) + " entries available)"@,
            ),
        ],
        OkPayload::VaultLocked => seq![LineView::Out("locked"@)],
        OkPayload::Defined => seq![LineView::Out("defined"@)],
        OkPayload::Deleted { deleted } => seq![
            LineView::Out(
                if deleted {
                    "deleted"@
                } else {
                    "not found"@
                },
            ),
        ],
        OkPayload::Pinned { pin_remaining_secs } => seq![
            LineView::Out("pinned for "@ + text::decimal(pin_remaining_secs as nat) + "s"@),
        ],
        OkPayload::Unpinned { unpinned } => seq![
            LineView::Out(
                if unpinned {
                    "unpinned"@
                } else {
                    "not found"@
                },
            ),
        ],
        OkPayload::List { keys, .. } => keys.deep_view().map_values(
            |k: Seq<char>| LineView::Out(k),
        ),
        OkPayload::Get { .. } => Seq::empty(),
        OkPayload::GetVerified { state, .. } => seq![
            LineView::Out("verified ("@ + state@ + "); no value (dry-run)"@),
        ],
        OkPayload::Restarting => seq![LineView::Out("restart accepted"@)],
        OkPayload::Status { pid, version, socket, entries, .. } => seq![
            LineView::Out(
                "daemon: cache-warden "@ + version@ + " (pid "@ + text::decimal(pid as nat) + ")"@,
            ),
            LineView::Out("socket: "@ + socket@),
        ] + entry_lines(entries.deep_view()),
    }
}

/// What a reply prints: lines, and the encoded value that a `get` asked for,
/// whose bytes follow as they are.
#[derive(Debug, Clone, PartialEq, Eq)]
pub struct Rendered {
    pub lines: Vec<Line>,
    pub value_b64: Option<String>,
}

fn one_line(s: String) -> (r: Vec<Line>)
    ensures
        r.deep_view() == seq![LineView::Out(s@)],
{
    let mut lines: Vec<Line> = Vec::new();
    lines.push(Line::Out(s));
    assert(lines.deep_view() =~= seq![LineView::Out(s@)]);
    lines
}

fn noted_line(note: String, s: String) -> (r: Vec<Line>)
    ensures
        r.deep_view() == seq![LineView::Note(note@), LineView::Out(s@)],
{
    let mut lines: Vec<Line> = Vec::new();
    lines.push(Line::Note(note));
    lines.push(Line::Out(s));
    assert(lines.deep_view() =~= seq![LineView::Note(note@), LineView::Out(s@)]);
    lines
}

fn key_lines(keys: &[String]) -> (r: Vec<Line>)
    ensures
        r.deep_view() == keys.deep_view().map_values(|k: Seq<char>| LineView::Out(k)),
{
    let mut lines: Vec<Line> = Vec::new();
    let ghost all = keys.deep_view().map_values(|k: Seq<char>| LineView::Out(k));
    let mut i: usize = 0;
    while i < keys.len()
        invariant
            i <= keys.len(),
            all == keys.deep_view().map_values(|k: Seq<char>| LineView::Out(k)),
            lines.deep_view() == all.take(i as int),
        decreases keys.len() - i,
    {
        push_line(&mut lines, Line::Out(keys[i].clone()));
        assert(lines.deep_view() =~= all.take(i + 1));
        i += 1;
    }
    assert(all.take(i as int) =~= all);
    lines
}

/// Append the lines of `status` about the entries.
fn push_entries(lines: &mut Vec<Line>, entries: &[EntryInfo])
    ensures
        final(lines).deep_view() == old(lines).deep_view() + entry_lines(entries.deep_view()),
{
    let ghost start = lines.deep_view();
    let ghost views = entries.deep_view();
    if entries.len() == 0 {
        push_line(lines, Line::Out("entries: (none)".to_owned()));
        assert(lines.deep_view() =~= start + entry_lines(views));
        return;
    }
    push_line(lines, Line::Out("entries:".to_owned()));
    let ghost head = lines.deep_view();
    let ghost all = views.map_values(|e: EntryInfoView| LineView::Out(entry_line(e)));
    let mut i: usize = 0;
    assert(head + all.take(0) =~= head);
    while i < entries.len()
        invariant
            i <= entries.len(),
            views == entries.deep_view(),
            all == views.map_values(|e: EntryInfoView| LineView::Out(entry_line(e))),
            lines.deep_view() == head + all.take(i as int),
        decreases entries.len() - i,
    {
        let e = &entries[i];
        assert(views[i as int] == e.deep_view());
        let attrs = format_entry_attrs(e);
        let slice = attrs.as_slice();
            assert(slice.deep_view() =~= attrs.deep_view());
        let line = "  ".to_owned().concat(e.name.as_str()).concat(" [").concat(
            e.state.as_str(),
        ).concat("] (").concat(text::join(slice, ", ").as_str()).concat(")");
        push_line(lines, Line::Out(line));
        assert(lines.deep_view() =~= head + all.take(i + 1));
        i += 1;
    }
    assert(all.take(i as int) =~= all);
    assert(lines.deep_view() =~= start + entry_lines(views));
}

/// What a reply prints, or how its failure reads. `guidance` is what is said
/// about keeping a recovery code.
pub fn render_response(resp: Response, guidance: &str) -> (r: Result<Rendered, String>)
    ensures
        match resp {
            Response::Success(body) => r matches Ok(shown) && shown.lines.deep_view()
                == payload_lines(body.payload, guidance@) && shown.value_b64.deep_view() == (
            match body.payload {
                OkPayload::Get { value_b64 } => Some(value_b64@),
                _ => None,
            }),
            Response::Failure(e) => r matches Err(message) && message@ == failure_text(e),
        },
{
    let body = match resp {
        Response::Failure(e) => {
            return Err(describe_failure(&e));
        },
        Response::Success(body) => body,
    };
    let lines = match body.payload {
        OkPayload::Pong => one_line("pong".to_owned()),
        OkPayload::CeremonyOpened { url, expires_in_secs } => noted_line(
            "open this in a browser within ".to_owned().concat(
                text::number_text(expires_in_secs).as_str(),
            ).concat("s to register the passkey:"),
            url,
        ),
        OkPayload::Stored { version, .. } => match version {
            Some(v) => one_line(
                "ok (version ".to_owned().concat(text::number_text(v).as_str()).concat(")"),
            ),
            None => one_line("ok".to_owned()),
        },
        OkPayload::Claimed { version, claim_token, claim_expires_in_secs } => noted_line(
            "claimed key at version ".to_owned().concat(text::number_text(version).as_str()).concat(
                " for ",
            ).concat(text::number_text(claim_expires_in_secs).as_str()).concat("s"),
            claim_token,
        ),
        OkPayload::Unclaimed => one_line("unclaimed".to_owned()),
        OkPayload::VaultInitialized { vault_id, recovery_code } => {
            let mut lines = noted_line(
                "vault ".to_owned().concat(vault_id.as_str()).concat(" created."),
                recovery_code,
            );
            push_line(&mut lines, Line::Note("\n".to_owned().concat(guidance)));
            assert(lines.deep_view() =~= payload_lines(body.payload, guidance@));
            lines
        },
        OkPayload::VaultUnlocked { entries_restored } => one_line(
            "unlocked (".to_owned().concat(text::number_text(entries_restored).as_str()).concat(
                " entries available)",
            ),
        ),
        OkPayload::VaultLocked => one_line("locked".to_owned()),
        OkPayload::Defined => one_line("defined".to_owned()),
        OkPayload::Deleted { deleted } => if deleted {
            one_line("deleted".to_owned())
        } else {
            one_line("not found".to_owned())
        },
        OkPayload::Pinned { pin_remaining_secs } => one_line(
            "pinned for ".to_owned().concat(text::number_text(pin_remaining_secs).as_str()).concat(
                "s",
            ),
        ),
        OkPayload::Unpinned { unpinned } => if unpinned {
            one_line("unpinned".to_owned())
        } else {
            one_line("not found".to_owned())
        },
        OkPayload::List { keys, .. } => {
            let slice = keys.as_slice();
            assert(slice.deep_view() =~= keys.deep_view());
            key_lines(slice)
        },
        OkPayload::Get { value_b64 } => {
            let lines: Vec<Line> = Vec::new();
            assert(lines.deep_view() =~= Seq::<LineView>::empty());
            return Ok(Rendered { lines, value_b64: Some(value_b64) });
        },
        OkPayload::GetVerified { state, .. } => one_line(
            "verified (".to_owned().concat(state.as_str()).concat("); no value (dry-run)"),
        ),
        OkPayload::Restarting => one_line("restart accepted".to_owned()),
        OkPayload::Status { pid, version, socket, entries, .. } => {
            let mut lines = one_line(
                "daemon: cache-warden ".to_owned().concat(version.as_str()).concat(" (pid ").concat(
                    text::number_text(pid as u64).as_str(),
                ).concat(")"),
            );
            push_line(&mut lines, Line::Out("socket: ".to_owned().concat(socket.as_str())));
            let slice = entries.as_slice();
            assert(slice.deep_view() =~= entries.deep_view());
            push_entries(&mut lines, slice);
            assert(lines.deep_view() =~= payload_lines(body.payload, guidance@));
            lines
        },
    };
    Ok(Rendered { lines, value_b64: None })
}

/// What a key is shown as in the view of the namespace `ns`: its name without
/// the namespace, or nothing where it belongs elsewhere. With `all` every key
/// is shown as it is.
pub open spec fn shown_name(name: Seq<char>, ns: Seq<char>, all: bool) -> Option<Seq<char>> {
    let prefix = ns + "/"@;
    if all {
        Some(name)
    } else if prefix.is_prefix_of(name) {
        Some(name.skip(prefix.len() as int))
    } else {
        None
    }
}

/// What a key is shown as in the view of the namespace `ns`.
pub fn display_name(name: &str, ns: &str, all: bool) -> (r: Option<String>)
    ensures
        r.deep_view() == shown_name(name@, ns@, all),
{
    if all {
        return Some(name.to_owned());
    }
    let prefix = ns.to_owned().concat("/");
    match text::after_prefix(name, prefix.as_str()) {
        Some(rest) => {
            assert(name@.skip(prefix@.len() as int) =~= rest@);
            assert(prefix@.is_prefix_of(name@));
            Some(rest.to_owned())
        },
        None => None,
    }
}

/// A view shows the keys of its own namespace by the names they were given, and
/// no key of any other.
pub proof fn a_view_shows_its_own_keys(ns: Seq<char>, other: Seq<char>, key: Seq<char>)
    requires
        namespace::is_identifier(ns),
        namespace::is_identifier(other),
    ensures
        shown_name(namespace::composed(ns, key), ns, false) == Some(key),
        other != ns ==> shown_name(namespace::composed(other, key), ns, false) is None,
{
    let prefix = ns + "/"@;
    let name = namespace::composed(ns, key);
    assert(name.take(prefix.len() as int) =~= prefix);
    assert(prefix.is_prefix_of(name));
    assert(name.skip(prefix.len() as int) =~= key);
    let foreign = namespace::composed(other, key);
    if prefix.is_prefix_of(foreign) {
        let rest = foreign.skip(prefix.len() as int);
        assert(foreign =~= prefix + rest);
        namespace::first_slash_is_unique(other, key, ns, rest);
    }
}

/// The reports on the entries that the view of `ns` shows, by their shown
/// names.
pub open spec fn viewed_entries(
    entries: Seq<EntryInfoView>,
    ns: Seq<char>,
    all: bool,
) -> Seq<EntryInfoView>
    decreases entries.len(),
{
    if entries.len() == 0 {
        Seq::empty()
    } else {
        let before = viewed_entries(entries.drop_last(), ns, all);
        let e = entries.last();
        match shown_name(e.name, ns, all) {
            Some(name) => before.push(EntryInfoView { name, ..e }),
            None => before,
        }
    }
}

fn renamed(e: &EntryInfo, name: String) -> (r: EntryInfo)
    ensures
        r.deep_view() == (EntryInfoView { name: name@, ..e.deep_view() }),
{
    let value_type = match &e.value_type {
        Some(t) => Some(t.clone()),
        None => None,
    };
    let source = match &e.source {
        Some(t) => Some(t.clone()),
        None => None,
    };
    let guard_summary = match &e.guard_summary {
        Some(labels) => {
            let slice = labels.as_slice();
            assert(slice.deep_view() =~= labels.deep_view());
            Some(text::copy_texts(slice))
        },
        None => None,
    };
    EntryInfo {
        name,
        state: e.state.clone(),
        regenerable: e.regenerable,
        defined: e.defined,
        has_value: e.has_value,
        pin_remaining_secs: e.pin_remaining_secs,
        value_type,
        source,
        backoff_until_secs: e.backoff_until_secs,
        guard_summary,
        version: e.version,
        claim_expires_in_secs: e.claim_expires_in_secs,
        locked: e.locked,
    }
}

fn view_entries(entries: &[EntryInfo], ns: &str, all: bool) -> (r: Vec<EntryInfo>)
    ensures
        r.deep_view() == viewed_entries(entries.deep_view(), ns@, all),
{
    let mut out: Vec<EntryInfo> = Vec::new();
    let ghost views = entries.deep_view();
    let mut i: usize = 0;
    proof {
        assert(views.take(0) =~= Seq::<EntryInfoView>::empty());
        assert(out.deep_view() =~= Seq::<EntryInfoView>::empty());
    }
    while i < entries.len()
        invariant
            i <= entries.len(),
            views == entries.deep_view(),
            out.deep_view() == viewed_entries(views.take(i as int), ns@, all),
        decreases entries.len() - i,
    {
        let ghost before = out.deep_view();
        let e = &entries[i];
        proof {
            assert(views.take(i + 1).drop_last() =~= views.take(i as int));
            assert(views.take(i + 1).last() == e.deep_view());
        }
        if let Some(name) = display_name(e.name.as_str(), ns, all) {
            let shown = renamed(e, name);
            out.push(shown);
            assert(out.deep_view() =~= before.push(shown.deep_view()));
        }
        i += 1;
    }
    assert(views.take(i as int) =~= views);
    out
}

/// A `status` reply in the view of the namespace `ns`. Any other reply stays as
/// it is.
pub fn status_in_namespace(resp: Response, ns: &str, all: bool) -> (r: Response)
    ensures
        match resp {
            Response::Success(body) => match body.payload {
                OkPayload::Status { pid, version, socket, entries, full_disk_access, vault } => {
                    r matches Response::Success(b) && (b.payload matches OkPayload::Status {
                        pid: p,
                        version: v,
                        socket: s,
                        entries: shown,
                        full_disk_access: fda,
                        vault: w,
                    } && p == pid && v == version && s == socket && fda == full_disk_access && w
                        == vault && shown.deep_view() == viewed_entries(
                        entries.deep_view(),
                        ns@,
                        all,
                    ))
                },
                _ => r == resp,
            },
            Response::Failure(_) => r == resp,
        },
{
    match resp {
        Response::Success(body) => match body.payload {
            OkPayload::Status { pid, version, socket, entries, full_disk_access, vault } => {
                let slice = entries.as_slice();
                assert(slice.deep_view() =~= entries.deep_view());
                let shown = view_entries(slice, ns, all);
                Response::Success(
                    OkBody {
                        payload: OkPayload::Status {
                            pid,
                            version,
                            socket,
                            entries: shown,
                            full_disk_access,
                            vault,
                        },
                    },
                )
            },
            payload => Response::Success(OkBody { payload }),
        },
        Response::Failure(e) => Response::Failure(e),
    }
}

/// The line of `kv list` about one key that is shown as `name`: the name, and
/// behind it the hints, where there is a report that gives any.
pub open spec fn list_line(name: Seq<char>, entry: Option<EntryInfoView>) -> Seq<char> {
    let hints = match entry {
        Some(e) => backoff_hint(e) + guard_hint(e),
        None => Seq::empty(),
    };
    if hints.len() == 0 {
        name
    } else {
        name + "  "@ + text::joined(hints, "  "@)
    }
}

/// The line of `kv list` about one key, where the view of `ns` shows it.
pub fn kv_list_line(key: &str, entry: Option<&EntryInfo>, ns: &str, all: bool) -> (r: Option<
    String,
>)
    ensures
        r.deep_view() == (match shown_name(key@, ns@, all) {
            Some(name) => Some(
                list_line(
                    name,
                    match entry {
                        Some(e) => Some(e.deep_view()),
                        None => None,
                    },
                ),
            ),
            None => None,
        }),
{
    match display_name(key, ns, all) {
        None => None,
        Some(name) => {
            let mut hints: Vec<String> = Vec::new();
            assert(hints.deep_view() =~= Seq::<Seq<char>>::empty());
            if let Some(e) = entry {
                push_backoff(&mut hints, e);
                push_guard(&mut hints, e);
                assert(hints.deep_view() =~= backoff_hint(e.deep_view()) + guard_hint(
                    e.deep_view(),
                ));
            }
            if hints.len() == 0 {
                Some(name)
            } else {
                let slice = hints.as_slice();
                assert(slice.deep_view() =~= hints.deep_view());
                Some(
                    name.as_str().to_owned().concat("  ").concat(text::join(slice, "  ").as_str()),
                )
            }
        },
    }
}

/// The lines of `kv list` about the first `n` of `keys`. The reports count only
/// where there is one for each key.
pub open spec fn list_lines(
    keys: Seq<Seq<char>>,
    entries: Seq<EntryInfoView>,
    ns: Seq<char>,
    all: bool,
    n: nat,
) -> Seq<Seq<char>>
    decreases n,
{
    if n == 0 {
        Seq::empty()
    } else {
        let before = list_lines(keys, entries, ns, all, (n - 1) as nat);
        let entry = if keys.len() == entries.len() {
            Some(entries[n - 1])
        } else {
            None
        };
        match shown_name(keys[n - 1], ns, all) {
            Some(name) => before.push(list_line(name, entry)),
            None => before,
        }
    }
}

/// The lines of `kv list`.
pub fn render_kv_list(keys: &[String], entries: &[EntryInfo], ns: &str, all: bool) -> (r: Vec<
    String,
>)
    ensures
        r.deep_view() == list_lines(
            keys.deep_view(),
            entries.deep_view(),
            ns@,
            all,
            keys@.len(),
        ),
{
    let mut out: Vec<String> = Vec::new();
    assert(out.deep_view() =~= Seq::<Seq<char>>::empty());
    let parallel = keys.len() == entries.len();
    let mut i: usize = 0;
    while i < keys.len()
        invariant
            i <= keys.len(),
            parallel == (keys@.len() == entries@.len()),
            out.deep_view() == list_lines(
                keys.deep_view(),
                entries.deep_view(),
                ns@,
                all,
                i as nat,
            ),
        decreases keys.len() - i,
    {
        let entry = if parallel {
            Some(&entries[i])
        } else {
            None
        };
        assert(keys.deep_view()[i as int] == keys@[i as int]@);
        assert(parallel ==> entries.deep_view()[i as int] == entries@[i as int].deep_view());
        if let Some(line) = kv_list_line(keys[i].as_str(), entry, ns, all) {
            text::push_text(&mut out, line);
        }
        i += 1;
    }
    out
}

/// `--all` leaves no key out: there is a line for each, in order, and it starts
/// with the key.
pub proof fn listing_all_leaves_nothing_out(
    keys: Seq<Seq<char>>,
    entries: Seq<EntryInfoView>,
    ns: Seq<char>,
    n: nat,
    i: int,
)
    requires
        n <= keys.len(),
        0 <= i < n,
    ensures
        list_lines(keys, entries, ns, true, n).len() == n,
        keys[i].is_prefix_of(list_lines(keys, entries, ns, true, n)[i]),
    decreases n,
{
    lemma_all_lines(keys, entries, ns, n);
    if i < n - 1 {
        listing_all_leaves_nothing_out(keys, entries, ns, (n - 1) as nat, i);
    } else {
        lemma_all_lines(keys, entries, ns, (n - 1) as nat);
        let line = list_lines(keys, entries, ns, true, n)[i];
        assert(line.take(keys[i].len() as int) =~= keys[i]);
    }
}

proof fn lemma_all_lines(
    keys: Seq<Seq<char>>,
    entries: Seq<EntryInfoView>,
    ns: Seq<char>,
    n: nat,
)
    ensures
        list_lines(keys, entries, ns, true, n).len() == n,
    decreases n,
{
    if n > 0 {
        lemma_all_lines(keys, entries, ns, (n - 1) as nat);
    }
}

/// What a reply to `kv list` prints, the failure it is, or the payload that
/// does not belong there.
#[derive(Debug, Clone, PartialEq, Eq)]
pub enum ListOutput {
    Lines(Vec<String>),
    Failed(String),
    Unexpected(OkPayload),
}

/// What a reply to `kv list` prints in the view of the namespace `ns`.
pub fn list_output(resp: Response, ns: &str, all: bool) -> (r: ListOutput)
    ensures
        match resp {
            Response::Success(body) => match body.payload {
                OkPayload::List { keys, entries } => r matches ListOutput::Lines(lines)
                    && lines.deep_view() == list_lines(
                    keys.deep_view(),
                    entries.deep_view(),
                    ns@,
                    all,
                    keys@.len(),
                ),
                other => r == ListOutput::Unexpected(other),
            },
            Response::Failure(e) => r matches ListOutput::Failed(message) && message@
                == failure_text(e),
        },
{
    match resp {
        Response::Success(body) => match body.payload {
            OkPayload::List { keys, entries } => {
                let names = keys.as_slice();
                let reports = entries.as_slice();
                assert(names.deep_view() =~= keys.deep_view());
                assert(reports.deep_view() =~= entries.deep_view());
                ListOutput::Lines(render_kv_list(names, reports, ns, all))
            },
            other => ListOutput::Unexpected(other),
        },
        Response::Failure(e) => ListOutput::Failed(describe_failure(&e)),
    }
}

/// What a reply to `status` says of the vault.
#[derive(Debug, Clone, PartialEq, Eq)]
pub enum VaultOutput {
    Vault(Option<VaultStatusWire>),
    Failed(String),
    Unexpected(OkPayload),
}

/// What a reply to `status` says of the vault.
pub fn vault_output(resp: Response) -> (r: VaultOutput)
    ensures
        match resp {
            Response::Success(body) => match body.payload {
                OkPayload::Status { vault, .. } => r == VaultOutput::Vault(vault),
                other => r == VaultOutput::Unexpected(other),
            },
            Response::Failure(e) => r matches VaultOutput::Failed(message) && message@
                == failure_text(e),
        },
{
    match resp {
        Response::Success(body) => match body.payload {
            OkPayload::Status { vault, .. } => VaultOutput::Vault(vault),
            other => VaultOutput::Unexpected(other),
        },
        Response::Failure(e) => VaultOutput::Failed(describe_failure(&e)),
    }
}

} // verus!
