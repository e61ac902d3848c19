//! The entries of the `[kv.*]` tables: their times to live, value types and
//! names.

use vstd::prelude::*;

use crate::namespace;
use crate::text;
use crate::wire::{CommandSpecWire, SourceSpecWire, ValueMetaWire};

verus! {

/// A fault in a configuration.
#[derive(Debug, Clone, PartialEq, Eq)]
pub struct ConfigError {
    pub message: String,
}

impl ConfigError {
    pub fn new(message: String) -> (r: ConfigError)
        ensures
            r == (ConfigError { message }),
    {
        ConfigError { message }
    }
}

/// A definition: where a key's value comes from.
#[derive(Debug, Clone, PartialEq, Eq)]
pub struct KvDefinition {
    pub name: String,
    /// The namespace that the entry is pinned to; without one it follows the
    /// context.
    pub namespace: Option<String>,
    pub source: SourceSpecWire,
    pub soft_ttl_secs: Option<u64>,
    pub hard_ttl_secs: Option<u64>,
    pub preload: bool,
    pub meta: ValueMetaWire,
}

/// What a [`ValueMetaWire`] holds.
#[verifier::ext_equal]
pub struct MetaView {
    pub type_label: Option<Seq<char>>,
    pub params: Seq<(Seq<char>, Seq<char>)>,
}

impl View for ValueMetaWire {
    type V = MetaView;

    open spec fn view(&self) -> MetaView {
        MetaView {
            type_label: self.type_label.deep_view(),
            params: param_texts(self.params@),
        }
    }
}

/// What a [`SourceSpecWire`] holds.
#[verifier::ext_equal]
pub enum SourceView {
    Command {
        argv: Seq<Seq<char>>,
        cwd: Option<Seq<char>>,
        env: Seq<(Seq<char>, Seq<char>)>,
    },
    Op { uri: Seq<char>, account: Option<Seq<char>> },
}

impl View for SourceSpecWire {
    type V = SourceView;

    open spec fn view(&self) -> SourceView {
        match self {
            SourceSpecWire::Command { command } => SourceView::Command {
                argv: command.argv.deep_view(),
                cwd: command.cwd.deep_view(),
                env: param_texts(command.env@),
            },
            SourceSpecWire::Op { op } => SourceView::Op {
                uri: op.uri@,
                account: op.account.deep_view(),
            },
        }
    }
}

/// The source that runs `argv` as it is, with no place or environment of its own.
pub open spec fn plain_command(argv: Seq<Seq<char>>) -> SourceView {
    SourceView::Command { argv, cwd: None, env: Seq::empty() }
}

/// The argument vector that a source comes down to: a 1Password reference is read
/// by `op read`.
pub open spec fn source_argv(source: SourceView) -> Seq<Seq<char>> {
    match source {
        SourceView::Command { argv, .. } => argv,
        SourceView::Op { uri, .. } => seq!["op"@, "read"@, uri],
    }
}

impl SourceSpecWire {
    /// The source that runs `argv` as it is.
    pub fn command(argv: Vec<String>) -> (r: SourceSpecWire)
        ensures
            r@ == plain_command(argv.deep_view()),
    {
        let env: Vec<(String, String)> = Vec::new();
        assert(param_texts(env@) =~= Seq::<(Seq<char>, Seq<char>)>::empty());
        SourceSpecWire::Command { command: CommandSpecWire { argv, cwd: None, env } }
    }

    /// The argument vector that the source comes down to.
    pub fn argv(&self) -> (r: Vec<String>)
        ensures
            r.deep_view() == source_argv(self@),
    {
        match self {
            SourceSpecWire::Command { command } => {
                let argv = command.argv.as_slice();
                assert(argv.deep_view() =~= command.argv.deep_view());
                text::copy_texts(argv)
            },
            SourceSpecWire::Op { op } => {
                let mut argv: Vec<String> = Vec::new();
                text::push_text(&mut argv, "op".to_owned());
                text::push_text(&mut argv, "read".to_owned());
                text::push_text(&mut argv, op.uri.clone());
                assert(argv.deep_view() =~= source_argv(self@));
                argv
            },
        }
    }
}

/// What a [`KvDefinition`] holds.
#[verifier::ext_equal]
pub struct DefView {
    pub name: Seq<char>,
    pub namespace: Option<Seq<char>>,
    pub source: SourceView,
    pub soft_ttl_secs: Option<u64>,
    pub hard_ttl_secs: Option<u64>,
    pub preload: bool,
    pub meta: MetaView,
}

impl View for KvDefinition {
    type V = DefView;

    open spec fn view(&self) -> DefView {
        DefView {
            name: self.name@,
            namespace: self.namespace.deep_view(),
            source: self.source@,
            soft_ttl_secs: self.soft_ttl_secs,
            hard_ttl_secs: self.hard_ttl_secs,
            preload: self.preload,
            meta: self.meta@,
        }
    }
}

impl DeepView for KvDefinition {
    type V = DefView;

    open spec fn deep_view(&self) -> DefView {
        self@
    }
}

/// The composed key of a definition read in the namespace `context`.
pub open spec fn def_key(def: DefView, context: Seq<char>) -> Seq<char> {
    namespace::composed(
        match def.namespace {
            Some(ns) => ns,
            None => context,
        },
        def.name,
    )
}

impl KvDefinition {
    /// The composed key of the definition: a pinned namespace is absolute,
    /// otherwise the entry belongs to `ctx_ns`.
    pub fn full_key(&self, ctx_ns: &str) -> (r: String)
        ensures
            r@ == def_key(self@, ctx_ns@),
    {
        match &self.namespace {
            Some(ns) => namespace::compose(ns.as_str(), self.name.as_str()),
            None => namespace::compose(ctx_ns, self.name.as_str()),
        }
    }
}

/// The seconds that a duration stands for: a number with `h`, `m` or `s` behind
/// it, or a bare number of seconds.
pub open spec fn duration_secs(s: Seq<char>) -> Option<u64> {
    let (number, unit) = if s.len() > 0 && s.last() == 'h' {
        (s.drop_last(), 3600nat)
    } else if s.len() > 0 && s.last() == 'm' {
        (s.drop_last(), 60nat)
    } else if s.len() > 0 && s.last() == 's' {
        (s.drop_last(), 1nat)
    } else {
        (s, 1nat)
    };
    match text::parsed_digits(number) {
        Some(n) => if n * unit <= u64::MAX {
            Some((n * unit) as u64)
        } else {
            None
        },
        None => None,
    }
}

/// What a text that is no duration is refused with.
pub open spec fn bad_duration(s: Seq<char>) -> Seq<char> {
    "invalid duration "@ + text::debug_text(s) + " (use e.g. 1h, 30m, 45s or bare seconds)"@
}

/// Read a duration as seconds.
pub fn parse_duration(s: &str) -> (r: Result<u64, String>)
    ensures
        match duration_secs(s@) {
            Some(n) => r == Ok::<u64, String>(n),
            None => r matches Err(e) && e@ == bad_duration(s@),
        },
{
    let n: usize = s.unicode_len();
    let mut unit: u64 = 1;
    let mut digits: usize = n;
    if n > 0 {
        let last = s.get_char(n - 1);
        if last == 'h' {
            unit = 3600;
            digits = n - 1;
        } else if last == 'm' {
            unit = 60;
            digits = n - 1;
        } else if last == 's' {
            digits = n - 1;
        }
    }
    let number = s.substring_char(0, digits);
    proof {
        if digits == n {
            assert(number@ =~= s@);
        } else {
            assert(number@ =~= s@.drop_last());
        }
    }
    match text::parse_digits(number) {
        Some(v) => match v.checked_mul(unit) {
            Some(secs) => Ok(secs),
            None => Err(bad_duration_text(s)),
        },
        None => Err(bad_duration_text(s)),
    }
}

fn bad_duration_text(s: &str) -> (r: String)
    ensures
        r@ == bad_duration(s@),
{
    "invalid duration ".to_owned().concat(text::quoted(s).as_str()).concat(
        " (use e.g. 1h, 30m, 45s or bare seconds)",
    )
}

/// A time to live written as a number of seconds with an `s` reads back as
/// itself.
pub proof fn written_ttl_reads_back(secs: u64)
    ensures
        duration_secs(text::decimal(secs as nat) + "s"@) == Some(secs),
{
    reveal_strlit("s");
    let s = text::decimal(secs as nat) + "s"@;
    text::decimal_reads_back(secs as nat);
    assert(s.last() == 's');
    assert(s.drop_last() =~= text::decimal(secs as nat));
    assert(text::parsed_digits(s.drop_last()) == Some(secs));
    assert(secs * 1nat == secs) by (nonlinear_arith);
}

/// The complaint `what` about the entry `name`.
pub open spec fn entry_fault(name: Seq<char>, what: Seq<char>) -> Seq<char> {
    "[kv."@ + name + "]: "@ + what
}

/// The complaint `what` about the entry `name`.
pub fn entry_error(name: &str, what: &str) -> (r: ConfigError)
    ensures
        r.message@ == entry_fault(name@, what@),
{
    ConfigError::new("[kv.".to_owned().concat(name).concat("]: ").concat(what))
}

/// The parameter `name` with the value `value`, where there is one.
pub open spec fn optional_param(name: Seq<char>, value: Option<Seq<char>>) -> Seq<
    (Seq<char>, Seq<char>),
> {
    match value {
        Some(v) => seq![(name, v)],
        None => Seq::empty(),
    }
}

/// Whether a hash algorithm for one-time codes is known.
pub open spec fn known_algorithm(lowered: Seq<char>) -> bool {
    lowered == "sha1"@ || lowered == "sha256"@ || lowered == "sha512"@
}

/// The value type of an entry, or the complaint. Parameters are kept in the
/// order of their names.
pub open spec fn kv_meta(
    name: Seq<char>,
    value_type: Option<Seq<char>>,
    digits: Option<u32>,
    period: Option<u64>,
    algorithm: Option<Seq<char>>,
) -> Result<MetaView, Seq<char>> {
    match value_type {
        None => if digits is Some || period is Some || algorithm is Some {
            Err(entry_fault(name, "`otp-*` fields need `type = \"otp\"`"@))
        } else {
            Ok(MetaView { type_label: None, params: Seq::empty() })
        },
        Some(t) => if t != "otp"@ {
            Err(entry_fault(name, "unknown `type` "@ + text::debug_text(t)))
        } else if algorithm is Some && !known_algorithm(text::lowered(algorithm->0)) {
            Err(
                entry_fault(
                    name,
                    "unknown `otp-algorithm` "@ + text::debug_text(algorithm->0)
                        + " (use sha1, sha256 or sha512)"@,
                ),
            )
        } else {
            Ok(
                MetaView {
                    type_label: Some("otp"@),
                    params: optional_param(
                        "algorithm"@,
                        match algorithm {
                            Some(a) => Some(text::lowered(a)),
                            None => None,
                        },
                    ) + optional_param(
                        "digits"@,
                        match digits {
                            Some(d) => Some(text::decimal(d as nat)),
                            None => None,
                        },
                    ) + optional_param(
                        "period"@,
                        match period {
                            Some(p) => Some(text::decimal(p as nat)),
                            None => None,
                        },
                    ),
                },
            )
        },
    }
}

fn push_param(params: &mut Vec<(String, String)>, name: &str, value: String)
    ensures
        param_texts(final(params)@) == param_texts(old(params)@) + seq![(name@, value@)],
{
    params.push((name.to_owned(), value));
    assert(param_texts(params@) =~= param_texts(old(params)@) + seq![(name@, value@)]);
}

/// The value type of an entry, from the fields that declare it.
pub fn build_kv_meta(
    name: &str,
    value_type: &Option<String>,
    digits: Option<u32>,
    period: Option<u64>,
    algorithm: &Option<String>,
) -> (r: Result<ValueMetaWire, ConfigError>)
    ensures
        match kv_meta(name@, value_type.deep_view(), digits, period, algorithm.deep_view()) {
            Ok(meta) => r matches Ok(m) && m@ == meta,
            Err(message) => r matches Err(e) && e.message@ == message,
        },
{
    let label = match value_type {
        None => {
            if digits.is_some() || period.is_some() || algorithm.is_some() {
                return Err(entry_error(name, "`otp-*` fields need `type = \"otp\"`"));
            }
            let params: Vec<(String, String)> = Vec::new();
            let meta = ValueMetaWire { type_label: None, params };
            assert(meta@ =~= MetaView { type_label: None, params: Seq::empty() });
            return Ok(meta);
        },
        Some(t) => t,
    };
    if !text::same_text(label.as_str(), "otp") {
        return Err(
            entry_error(
                name,
                "unknown `type` ".to_owned().concat(text::quoted(label.as_str()).as_str()).as_str(),
            ),
        );
    }
    let mut params: Vec<(String, String)> = Vec::new();
    assert(param_texts(params@) =~= Seq::<(Seq<char>, Seq<char>)>::empty());
    if let Some(a) = algorithm {
        let lowered = text::lowercase(a.as_str());
        let known = text::same_text(lowered.as_str(), "sha1") || text::same_text(
            lowered.as_str(),
            "sha256",
        ) || text::same_text(lowered.as_str(), "sha512");
        if !known {
            return Err(
                entry_error(
                    name,
                    "unknown `otp-algorithm` ".to_owned().concat(
                        text::quoted(a.as_str()).as_str(),
                    ).concat(" (use sha1, sha256 or sha512)").as_str(),
                ),
            );
        }
        push_param(&mut params, "algorithm", lowered);
    }
    if let Some(d) = digits {
        push_param(&mut params, "digits", text::number_text(d as u64));
    }
    if let Some(p) = period {
        push_param(&mut params, "period", text::number_text(p));
    }
    let meta = ValueMetaWire { type_label: Some(label.clone()), params };
    proof {
        let want = kv_meta(name@, value_type.deep_view(), digits, period, algorithm.deep_view());
        assert(meta@.params =~= want->Ok_0.params);
    }
    Ok(meta)
}

/// The key and the pinned namespace of an entry, or the complaint: both must be
/// identifiers.
pub open spec fn entry_name(name: Seq<char>, ns: Option<Seq<char>>) -> Result<
    (Seq<char>, Option<Seq<char>>),
    Seq<char>,
> {
    if !namespace::is_identifier(name) {
        Err(entry_fault(name, namespace::bad_identifier(name, "KEY"@)))
    } else if ns is Some && !namespace::is_identifier(ns->0) {
        Err(entry_fault(name, namespace::bad_identifier(ns->0, "namespace"@)))
    } else {
        Ok((name, ns))
    }
}

/// The key and the pinned namespace of an entry.
pub fn split_kv_entry_name(name: &str, ns: &Option<String>) -> (r: Result<
    (String, Option<String>),
    ConfigError,
>)
    ensures
        match entry_name(name@, ns.deep_view()) {
            Ok((key, pinned)) => r matches Ok((k, p)) && k@ == key && p.deep_view() == pinned,
            Err(message) => r matches Err(e) && e.message@ == message,
        },
{
    match namespace::validate_identifier(name, "KEY") {
        Err(e) => {
            return Err(entry_error(name, e.as_str()));
        },
        Ok(()) => {},
    }
    match ns {
        None => Ok((name.to_owned(), None)),
        Some(n) => match namespace::validate_identifier(n.as_str(), "namespace") {
            Err(e) => Err(entry_error(name, e.as_str())),
            Ok(()) => Ok((name.to_owned(), Some(n.clone()))),
        },
    }
}

/// The value of the parameter `name`: that of the first one of this name.
pub open spec fn param_value(params: Seq<(Seq<char>, Seq<char>)>, name: Seq<char>) -> Option<
    Seq<char>,
>
    decreases params.len(),
{
    if params.len() == 0 {
        None
    } else if params[0].0 == name {
        Some(params[0].1)
    } else {
        param_value(params.skip(1), name)
    }
}

/// The texts of a list of parameters.
pub open spec fn param_texts(params: Seq<(String, String)>) -> Seq<(Seq<char>, Seq<char>)> {
    params.map_values(|p: (String, String)| (p.0@, p.1@))
}

/// The value of the parameter `name`.
pub fn find_param(params: &[(String, String)], name: &str) -> (r: Option<String>)
    ensures
        r.deep_view() == param_value(param_texts(params@), name@),
{
    let ghost texts = param_texts(params@);
    let mut i: usize = 0;
    assert(texts.skip(0) =~= texts);
    while i < params.len()
        invariant
            i <= params.len(),
            texts == param_texts(params@),
            param_value(texts, name@) == param_value(texts.skip(i as int), name@),
        decreases params.len() - i,
    {
        assert(texts.skip(i as int)[0] == (params@[i as int].0@, params@[i as int].1@));
        assert(texts.skip(i as int).skip(1) =~= texts.skip(i + 1));
        if text::same_text(params[i].0.as_str(), name) {
            return Some(params[i].1.clone());
        }
        i += 1;
    }
    None
}

} // verus!
