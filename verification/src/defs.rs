//! Definition files and the persisted-definitions file.
//!
//! A definition file that a user wrote has flat `[kv.NAME]` tables with an
//! optional `namespace` field. The file in which the daemon keeps its online
//! definitions has uniform `[kv.NS.KEY]` tables: both segments are identifiers,
//! so neither ever needs quoting and the depth of a path says what it means.
//! Both hold definitions only; neither has a place for a value.

use vstd::prelude::*;

use crate::config;
use crate::config::{ConfigError, DefView, KvDefinition, MetaView};
use crate::daemon::handler::ValueMeta;
use crate::namespace;
use crate::path;
use crate::text;
use crate::wire::{CommandSpecWire, OpSpecWire, SourceSpecWire, ValueMetaWire};

pub mod read_back;

verus! {

/// One table of a definition file, as it was read. The `has_` fields say that a
/// key is present which has no place in such a file.
#[derive(Debug, Clone, PartialEq, Eq)]
pub struct DefEntry {
    pub command: Option<Vec<String>>,
    pub soft_ttl: Option<String>,
    pub hard_ttl: Option<String>,
    pub value_type: Option<String>,
    pub otp_digits: Option<u32>,
    pub otp_period: Option<u64>,
    pub otp_algorithm: Option<String>,
    pub namespace: Option<String>,
    pub has_preload: bool,
    pub has_value: bool,
    pub has_value_stdin: bool,
    pub has_static: bool,
}

/// What a [`DefEntry`] holds.
#[verifier::ext_equal]
pub struct EntryView {
    pub command: Option<Seq<Seq<char>>>,
    pub soft_ttl: Option<Seq<char>>,
    pub hard_ttl: Option<Seq<char>>,
    pub value_type: Option<Seq<char>>,
    pub otp_digits: Option<u32>,
    pub otp_period: Option<u64>,
    pub otp_algorithm: Option<Seq<char>>,
    pub namespace: Option<Seq<char>>,
    pub has_preload: bool,
    pub has_value: bool,
    pub has_value_stdin: bool,
    pub has_static: bool,
}

impl View for DefEntry {
    type V = EntryView;

    open spec fn view(&self) -> EntryView {
        EntryView {
            command: self.command.deep_view(),
            soft_ttl: self.soft_ttl.deep_view(),
            hard_ttl: self.hard_ttl.deep_view(),
            value_type: self.value_type.deep_view(),
            otp_digits: self.otp_digits,
            otp_period: self.otp_period,
            otp_algorithm: self.otp_algorithm.deep_view(),
            namespace: self.namespace.deep_view(),
            has_preload: self.has_preload,
            has_value: self.has_value,
            has_value_stdin: self.has_value_stdin,
            has_static: self.has_static,
        }
    }
}

/// What a time to live reads as, or the complaint about it.
pub open spec fn ttl_of(name: Seq<char>, label: Seq<char>, ttl: Option<Seq<char>>) -> Result<
    Option<u64>,
    Seq<char>,
> {
    match ttl {
        None => Ok(None),
        Some(t) => match config::duration_secs(t) {
            Some(secs) => Ok(Some(secs)),
            None => Err(config::entry_fault(name, label + ": "@ + config::bad_duration(t))),
        },
    }
}

/// The definition that the table `name` stands for, or the first complaint
/// about it.
pub open spec fn validated(entry: EntryView, name: Seq<char>) -> Result<DefView, Seq<char>> {
    let meta = config::kv_meta(
        name,
        entry.value_type,
        entry.otp_digits,
        entry.otp_period,
        entry.otp_algorithm,
    );
    let key = config::entry_name(name, entry.namespace);
    let soft = ttl_of(name, "soft-ttl"@, entry.soft_ttl);
    let hard = ttl_of(name, "hard-ttl"@, entry.hard_ttl);
    if entry.has_preload {
        Err(
            config::entry_fault(
                name,
                "`preload` is not allowed in a defs file — it is a config-only startup flag; defs definitions are always lazy"@,
            ),
        )
    } else if entry.has_value {
        Err(
            config::entry_fault(
                name,
                "inline `value` is not allowed — defs files declare regenerable command definitions only, never literal secrets"@,
            ),
        )
    } else if entry.has_value_stdin {
        Err(
            config::entry_fault(
                name,
                "`value-stdin` is not a defs key — pipe literal values in at runtime (`... | cache-warden kv set "@
                    + name + "`)"@,
            ),
        )
    } else if entry.has_static {
        Err(
            config::entry_fault(
                name,
                "a `static` source cannot be defined — only `command` entries may be defined"@,
            ),
        )
    } else if entry.command is None {
        Err(config::entry_fault(name, "a definition entry requires a `command` source"@))
    } else if entry.command->0.len() == 0 {
        Err(config::entry_fault(name, "`command` must not be empty"@))
    } else if meta is Err {
        Err(meta->Err_0)
    } else if key is Err {
        Err(key->Err_0)
    } else if soft is Err {
        Err(soft->Err_0)
    } else if hard is Err {
        Err(hard->Err_0)
    } else {
        Ok(
            DefView {
                name: key->Ok_0.0,
                namespace: key->Ok_0.1,
                source: config::plain_command(entry.command->0),
                soft_ttl_secs: soft->Ok_0,
                hard_ttl_secs: hard->Ok_0,
                preload: false,
                meta: meta->Ok_0,
            },
        )
    }
}

fn parse_ttl(name: &str, label: &str, ttl: &Option<String>) -> (r: Result<
    Option<u64>,
    ConfigError,
>)
    ensures
        match ttl_of(name@, label@, ttl.deep_view()) {
            Ok(secs) => r == Ok::<Option<u64>, ConfigError>(secs),
            Err(message) => r matches Err(e) && e.message@ == message,
        },
{
    match ttl {
        None => Ok(None),
        Some(t) => match config::parse_duration(t.as_str()) {
            Ok(secs) => Ok(Some(secs)),
            Err(e) => Err(
                config::entry_error(
                    name,
                    label.to_owned().concat(": ").concat(e.as_str()).as_str(),
                ),
            ),
        },
    }
}

impl DefEntry {
    /// The definition that this table stands for. Refused are `preload`, inline
    /// values, a missing or empty command, a bad value type, a bad name and a
    /// bad time to live, in this order.
    pub fn validate(&self, name: &str) -> (r: Result<KvDefinition, ConfigError>)
        ensures
            match validated(self@, name@) {
                Ok(def) => r matches Ok(d) && d@ == def,
                Err(message) => r matches Err(e) && e.message@ == message,
            },
    {
        if self.has_preload {
            return Err(
                config::entry_error(
                    name,
                    "`preload` is not allowed in a defs file — it is a config-only startup flag; defs definitions are always lazy",
                ),
            );
        }
        if self.has_value {
            return Err(
                config::entry_error(
                    name,
                    "inline `value` is not allowed — defs files declare regenerable command definitions only, never literal secrets",
                ),
            );
        }
        if self.has_value_stdin {
            return Err(
                config::entry_error(
                    name,
                    "`value-stdin` is not a defs key — pipe literal values in at runtime (`... | cache-warden kv set ".to_owned().concat(
                        name,
                    ).concat("`)").as_str(),
                ),
            );
        }
        if self.has_static {
            return Err(
                config::entry_error(
                    name,
                    "a `static` source cannot be defined — only `command` entries may be defined",
                ),
            );
        }
        let command = match &self.command {
            None => {
                return Err(
                    config::entry_error(name, "a definition entry requires a `command` source"),
                );
            },
            Some(argv) => {
                if argv.is_empty() {
                    assert(argv.deep_view().len() == 0);
                    return Err(config::entry_error(name, "`command` must not be empty"));
                }
                let texts = argv.as_slice();
                assert(texts.deep_view() =~= argv.deep_view());
                text::copy_texts(texts)
            },
        };
        let meta = match config::build_kv_meta(
            name,
            &self.value_type,
            self.otp_digits,
            self.otp_period,
            &self.otp_algorithm,
        ) {
            Err(e) => {
                return Err(e);
            },
            Ok(m) => m,
        };
        let (key, pinned) = match config::split_kv_entry_name(name, &self.namespace) {
            Err(e) => {
                return Err(e);
            },
            Ok(split) => split,
        };
        let soft_ttl_secs = match parse_ttl(name, "soft-ttl", &self.soft_ttl) {
            Err(e) => {
                return Err(e);
            },
            Ok(secs) => secs,
        };
        let hard_ttl_secs = match parse_ttl(name, "hard-ttl", &self.hard_ttl) {
            Err(e) => {
                return Err(e);
            },
            Ok(secs) => secs,
        };
        Ok(
            KvDefinition {
                name: key,
                namespace: pinned,
                source: SourceSpecWire::command(command),
                soft_ttl_secs,
                hard_ttl_secs,
                preload: false,
                meta,
            },
        )
    }
}

/// A table and its name.
#[derive(Debug, Clone, PartialEq, Eq)]
pub struct NamedEntry {
    pub name: String,
    pub entry: DefEntry,
}

impl DeepView for NamedEntry {
    type V = (Seq<char>, EntryView);

    open spec fn deep_view(&self) -> (Seq<char>, EntryView) {
        (self.name@, self.entry@)
    }
}

/// The definitions of a user's file, in the order of its tables, or the first
/// complaint.
pub open spec fn validated_all(entries: Seq<(Seq<char>, EntryView)>) -> Result<
    Seq<DefView>,
    Seq<char>,
>
    decreases entries.len(),
{
    if entries.len() == 0 {
        Ok(Seq::empty())
    } else {
        match validated_all(entries.drop_last()) {
            Err(e) => Err(e),
            Ok(before) => match validated(entries.last().1, entries.last().0) {
                Err(e) => Err(e),
                Ok(def) => Ok(before.push(def)),
            },
        }
    }
}

proof fn first_complaint_stays(entries: Seq<(Seq<char>, EntryView)>, n: int)
    requires
        0 <= n <= entries.len(),
        validated_all(entries.take(n)) is Err,
    ensures
        validated_all(entries) == validated_all(entries.take(n)),
    decreases entries.len() - n,
{
    if n < entries.len() {
        assert(entries.take(n + 1).drop_last() =~= entries.take(n));
        first_complaint_stays(entries, n + 1);
    } else {
        assert(entries.take(n) =~= entries);
    }
}

/// The definitions of a user's file, in the order of its tables.
pub fn validate_defs(entries: &[NamedEntry]) -> (r: Result<Vec<KvDefinition>, ConfigError>)
    ensures
        match validated_all(entries.deep_view()) {
            Ok(defs) => r matches Ok(ds) && ds.deep_view() == defs,
            Err(message) => r matches Err(e) && e.message@ == message,
        },
{
    let ghost views = entries.deep_view();
    let mut out: Vec<KvDefinition> = Vec::new();
    let mut i: usize = 0;
    proof {
        assert(views.take(0) =~= Seq::<(Seq<char>, EntryView)>::empty());
        assert(out.deep_view() =~= Seq::<DefView>::empty());
    }
    while i < entries.len()
        invariant
            i <= entries.len(),
            views == entries.deep_view(),
            validated_all(views.take(i as int)) == Ok::<Seq<DefView>, Seq<char>>(out.deep_view()),
        decreases entries.len() - i,
    {
        let ghost before = out.deep_view();
        proof {
            assert(views.take(i + 1).drop_last() =~= views.take(i as int));
            assert(views.take(i + 1).last() == (entries@[i as int].name@, entries@[i as int].entry@));
        }
        match entries[i].entry.validate(entries[i].name.as_str()) {
            Err(e) => {
                proof {
                    first_complaint_stays(views, i + 1);
                }
                return Err(e);
            },
            Ok(def) => {
                out.push(def);
                assert(out.deep_view() =~= before.push(def@));
            },
        }
        i += 1;
    }
    assert(views.take(i as int) =~= views);
    Ok(out)
}

/// The tables of one namespace of the persisted file.
#[derive(Debug, Clone, PartialEq, Eq)]
pub struct PersistTable {
    pub namespace: String,
    pub entries: Vec<NamedEntry>,
}

impl DeepView for PersistTable {
    type V = (Seq<char>, Seq<(Seq<char>, EntryView)>);

    open spec fn deep_view(&self) -> (Seq<char>, Seq<(Seq<char>, EntryView)>) {
        (self.namespace@, self.entries.deep_view())
    }
}

/// The definition that the table `[kv.NS.KEY]` stands for, or the complaint.
pub open spec fn persisted_entry(ns: Seq<char>, key: Seq<char>, entry: EntryView) -> Result<
    DefView,
    Seq<char>,
> {
    let place = "[kv."@ + ns + "."@ + key + "]: "@;
    if !namespace::is_identifier(key) {
        Err(place + namespace::bad_identifier(key, "KEY"@))
    } else if entry.namespace is Some {
        Err(
            place
                + "a `namespace` field is not allowed in the                      persisted format — the table path is the namespace"@,
        )
    } else {
        match validated(entry, key) {
            Err(e) => Err(e),
            Ok(def) => Ok(DefView { namespace: Some(ns), ..def }),
        }
    }
}

/// The definitions of one namespace, in the order of their tables, or the first
/// complaint.
pub open spec fn persisted_entries(ns: Seq<char>, entries: Seq<(Seq<char>, EntryView)>) -> Result<
    Seq<DefView>,
    Seq<char>,
>
    decreases entries.len(),
{
    if entries.len() == 0 {
        Ok(Seq::empty())
    } else {
        match persisted_entries(ns, entries.drop_last()) {
            Err(e) => Err(e),
            Ok(before) => match persisted_entry(ns, entries.last().0, entries.last().1) {
                Err(e) => Err(e),
                Ok(def) => Ok(before.push(def)),
            },
        }
    }
}

/// The definitions of one namespace, whose name must be an identifier.
pub open spec fn persisted_table(table: (Seq<char>, Seq<(Seq<char>, EntryView)>)) -> Result<
    Seq<DefView>,
    Seq<char>,
> {
    if !namespace::is_identifier(table.0) {
        Err(config::entry_fault(table.0, namespace::bad_identifier(table.0, "namespace"@)))
    } else {
        persisted_entries(table.0, table.1)
    }
}

/// The definitions of a persisted file, in the order of its tables, or the first
/// complaint.
pub open spec fn persisted_all(tables: Seq<(Seq<char>, Seq<(Seq<char>, EntryView)>)>) -> Result<
    Seq<DefView>,
    Seq<char>,
>
    decreases tables.len(),
{
    if tables.len() == 0 {
        Ok(Seq::empty())
    } else {
        match persisted_all(tables.drop_last()) {
            Err(e) => Err(e),
            Ok(before) => match persisted_table(tables.last()) {
                Err(e) => Err(e),
                Ok(defs) => Ok(before + defs),
            },
        }
    }
}

proof fn first_entry_complaint_stays(ns: Seq<char>, entries: Seq<(Seq<char>, EntryView)>, n: int)
    requires
        0 <= n <= entries.len(),
        persisted_entries(ns, entries.take(n)) is Err,
    ensures
        persisted_entries(ns, entries) == persisted_entries(ns, entries.take(n)),
    decreases entries.len() - n,
{
    if n < entries.len() {
        assert(entries.take(n + 1).drop_last() =~= entries.take(n));
        first_entry_complaint_stays(ns, entries, n + 1);
    } else {
        assert(entries.take(n) =~= entries);
    }
}

proof fn first_table_complaint_stays(
    tables: Seq<(Seq<char>, Seq<(Seq<char>, EntryView)>)>,
    n: int,
)
    requires
        0 <= n <= tables.len(),
        persisted_all(tables.take(n)) is Err,
    ensures
        persisted_all(tables) == persisted_all(tables.take(n)),
    decreases tables.len() - n,
{
    if n < tables.len() {
        assert(tables.take(n + 1).drop_last() =~= tables.take(n));
        first_table_complaint_stays(tables, n + 1);
    } else {
        assert(tables.take(n) =~= tables);
    }
}

fn validate_persisted_entry(ns: &str, key: &str, entry: &DefEntry) -> (r: Result<
    KvDefinition,
    ConfigError,
>)
    ensures
        match persisted_entry(ns@, key@, entry@) {
            Ok(def) => r matches Ok(d) && d@ == def,
            Err(message) => r matches Err(e) && e.message@ == message,
        },
{
    let place = "[kv.".to_owned().concat(ns).concat(".").concat(key).concat("]: ");
    match namespace::validate_identifier(key, "KEY") {
        Err(e) => {
            return Err(ConfigError::new(place.concat(e.as_str())));
        },
        Ok(()) => {},
    }
    if entry.namespace.is_some() {
        return Err(
            ConfigError::new(
                place.concat(
                    "a `namespace` field is not allowed in the                      persisted format — the table path is the namespace",
                ),
            ),
        );
    }
    match entry.validate(key) {
        Err(e) => Err(e),
        Ok(def) => {
            let pinned = KvDefinition { namespace: Some(ns.to_owned()), ..def };
            Ok(pinned)
        },
    }
}

fn validate_persisted_entries(ns: &str, entries: &Vec<NamedEntry>) -> (r: Result<
    Vec<KvDefinition>,
    ConfigError,
>)
    ensures
        match persisted_entries(ns@, entries.deep_view()) {
            Ok(defs) => r matches Ok(ds) && ds.deep_view() == defs,
            Err(message) => r matches Err(e) && e.message@ == message,
        },
{
    let ghost views = entries.deep_view();
    let mut out: Vec<KvDefinition> = Vec::new();
    let mut i: usize = 0;
    proof {
        assert(views.take(0) =~= Seq::<(Seq<char>, EntryView)>::empty());
        assert(out.deep_view() =~= Seq::<DefView>::empty());
    }
    while i < entries.len()
        invariant
            i <= entries.len(),
            views == entries.deep_view(),
            persisted_entries(ns@, views.take(i as int)) == Ok::<Seq<DefView>, Seq<char>>(
                out.deep_view(),
            ),
        decreases entries.len() - i,
    {
        let ghost before = out.deep_view();
        proof {
            assert(views.take(i + 1).drop_last() =~= views.take(i as int));
            assert(views.take(i + 1).last() == (entries@[i as int].name@, entries@[i as int].entry@));
        }
        match validate_persisted_entry(ns, entries[i].name.as_str(), &entries[i].entry) {
            Err(e) => {
                proof {
                    first_entry_complaint_stays(ns@, views, i + 1);
                }
                return Err(e);
            },
            Ok(def) => {
                out.push(def);
                assert(out.deep_view() =~= before.push(def@));
            },
        }
        i += 1;
    }
    assert(views.take(i as int) =~= views);
    Ok(out)
}

/// The definitions of a persisted file, each pinned to the namespace of its
/// table.
pub fn validate_persisted(tables: &[PersistTable]) -> (r: Result<Vec<KvDefinition>, ConfigError>)
    ensures
        match persisted_all(tables.deep_view()) {
            Ok(defs) => r matches Ok(ds) && ds.deep_view() == defs,
            Err(message) => r matches Err(e) && e.message@ == message,
        },
{
    let ghost views = tables.deep_view();
    let mut out: Vec<KvDefinition> = Vec::new();
    let mut i: usize = 0;
    proof {
        assert(views.take(0) =~= Seq::<(Seq<char>, Seq<(Seq<char>, EntryView)>)>::empty());
        assert(out.deep_view() =~= Seq::<DefView>::empty());
    }
    while i < tables.len()
        invariant
            i <= tables.len(),
            views == tables.deep_view(),
            persisted_all(views.take(i as int)) == Ok::<Seq<DefView>, Seq<char>>(out.deep_view()),
        decreases tables.len() - i,
    {
        let ghost before = out.deep_view();
        let table = &tables[i];
        proof {
            assert(views.take(i + 1).drop_last() =~= views.take(i as int));
            assert(views.take(i + 1).last() == table.deep_view());
        }
        let ns = table.namespace.as_str();
        match namespace::validate_identifier(ns, "namespace") {
            Err(e) => {
                proof {
                    first_table_complaint_stays(views, i + 1);
                }
                return Err(config::entry_error(ns, e.as_str()));
            },
            Ok(()) => {},
        }
        match validate_persisted_entries(ns, &table.entries) {
            Err(e) => {
                proof {
                    first_table_complaint_stays(views, i + 1);
                }
                return Err(e);
            },
            Ok(defs) => {
                let mut more = defs;
                let ghost added = more.deep_view();
                out.append(&mut more);
                assert(out.deep_view() =~= before + added);
            },
        }
        i += 1;
    }
    assert(views.take(i as int) =~= views);
    Ok(out)
}

/// The key that a definition is filed under.
pub open spec fn file_key(def: DefView) -> Seq<char> {
    config::def_key(def, "default"@)
}

/// `def` put into an ordered list, behind those of the same key.
pub open spec fn filed(defs: Seq<DefView>, def: DefView) -> Seq<DefView>
    decreases defs.len(),
{
    if defs.len() > 0 && text::text_lt(file_key(def), file_key(defs.last())) {
        filed(defs.drop_last(), def).push(defs.last())
    } else {
        defs.push(def)
    }
}

/// The definitions in the order of their keys; those of the same key stay in
/// the order they came in.
pub open spec fn in_key_order(defs: Seq<DefView>) -> Seq<DefView>
    decreases defs.len(),
{
    if defs.len() == 0 {
        Seq::empty()
    } else {
        filed(in_key_order(defs.drop_last()), defs.last())
    }
}

/// The keys of a list go up.
pub open spec fn keys_ascend(defs: Seq<DefView>) -> bool {
    forall|i: int, j: int|
        0 <= i < j < defs.len() ==> text::text_le(
            file_key(#[trigger] defs[i]),
            file_key(#[trigger] defs[j]),
        )
}

proof fn filing_keeps_order(defs: Seq<DefView>, def: DefView)
    requires
        keys_ascend(defs),
    ensures
        keys_ascend(filed(defs, def)),
        filed(defs, def).to_multiset() =~= defs.to_multiset().insert(def),
        filed(defs, def).len() == defs.len() + 1,
        forall|i: int|
            0 <= i < filed(defs, def).len() ==> #[trigger] filed(defs, def)[i] == def
                || defs.contains(filed(defs, def)[i]),
    decreases defs.len(),
{
    broadcast use vstd::seq_lib::group_to_multiset_ensures;

    if defs.len() > 0 && text::text_lt(file_key(def), file_key(defs.last())) {
        let front = defs.drop_last();
        let last = defs.last();
        filing_keeps_order(front, def);
        let put = filed(front, def);
        text::text_order_is_total(file_key(def), file_key(last));
        assert(text::text_le(file_key(def), file_key(last)));
        assert forall|i: int, j: int| 0 <= i < j < put.push(last).len() implies text::text_le(
            file_key(#[trigger] put.push(last)[i]),
            file_key(#[trigger] put.push(last)[j]),
        ) by {
            if j < put.len() {
                assert(put.push(last)[i] == put[i]);
                assert(put.push(last)[j] == put[j]);
            } else {
                assert(put.push(last)[i] == put[i]);
                if put[i] != def {
                    let k = front.index_of(put[i]);
                    assert(front.contains(put[i]));
                    assert(defs[k] == put[i]);
                    assert(defs[defs.len() - 1] == last);
                }
            }
        }
        assert forall|i: int| 0 <= i < put.push(last).len() implies #[trigger] put.push(last)[i]
            == def || defs.contains(put.push(last)[i]) by {
            if i < put.len() {
                assert(put.push(last)[i] == put[i]);
                if put[i] != def {
                    let k = front.index_of(put[i]);
                    assert(front.contains(put[i]));
                    assert(defs[k] == put[i]);
                }
            } else {
                assert(defs[defs.len() - 1] == last);
            }
        }
        assert(defs =~= front.push(last));
        assert(put.push(last).to_multiset() =~= put.to_multiset().insert(last));
        assert(defs.to_multiset() =~= front.to_multiset().insert(last));
        assert(filed(defs, def).to_multiset() =~= defs.to_multiset().insert(def));
    } else {
        let out = defs.push(def);
        assert forall|i: int, j: int| 0 <= i < j < out.len() implies text::text_le(
            file_key(#[trigger] out[i]),
            file_key(#[trigger] out[j]),
        ) by {
            if j == defs.len() {
                let last = defs.last();
                assert(text::text_le(file_key(last), file_key(def)));
                assert(out[i] == defs[i]);
                if i < defs.len() - 1 {
                    assert(defs[defs.len() - 1] == last);
                    text::text_order_is_transitive(
                        file_key(defs[i]),
                        file_key(last),
                        file_key(def),
                    );
                }
            } else {
                assert(out[i] == defs[i] && out[j] == defs[j]);
            }
        }
        assert forall|i: int| 0 <= i < out.len() implies #[trigger] out[i] == def
            || defs.contains(out[i]) by {
            if i < defs.len() {
                assert(out[i] == defs[i]);
            }
        }
        assert(out.to_multiset() =~= defs.to_multiset().insert(def));
    }
}

/// Ordering definitions by key drops none, adds none, and does order them.
pub proof fn key_order_is_a_permutation(defs: Seq<DefView>)
    ensures
        keys_ascend(in_key_order(defs)),
        in_key_order(defs).to_multiset() =~= defs.to_multiset(),
        in_key_order(defs).len() == defs.len(),
    decreases defs.len(),
{
    broadcast use vstd::seq_lib::group_to_multiset_ensures;

    if defs.len() > 0 {
        let front = defs.drop_last();
        key_order_is_a_permutation(front);
        filing_keeps_order(in_key_order(front), defs.last());
        assert(defs =~= front.push(defs.last()));
        assert(defs.to_multiset() =~= front.to_multiset().insert(defs.last()));
    }
}

/// What the definitions that a list refers to hold.
pub open spec fn referred(defs: Seq<&KvDefinition>) -> Seq<DefView> {
    defs.map_values(|d: &KvDefinition| d@)
}

proof fn filed_at(defs: Seq<DefView>, def: DefView, pos: int)
    requires
        0 <= pos <= defs.len(),
        forall|j: int|
            pos <= j < defs.len() ==> text::text_lt(file_key(def), file_key(#[trigger] defs[j])),
        pos > 0 ==> !text::text_lt(file_key(def), file_key(defs[pos - 1])),
    ensures
        filed(defs, def) == defs.take(pos).push(def) + defs.skip(pos),
    decreases defs.len() - pos,
{
    if pos == defs.len() {
        assert(defs.take(pos) =~= defs);
        assert(defs.skip(pos) =~= Seq::<DefView>::empty());
        assert(defs.take(pos).push(def) + defs.skip(pos) =~= defs.push(def));
    } else {
        let front = defs.drop_last();
        assert forall|j: int| pos <= j < front.len() implies text::text_lt(
            file_key(def),
            file_key(#[trigger] front[j]),
        ) by {
            assert(front[j] == defs[j]);
        }
        if pos > 0 {
            assert(front[pos - 1] == defs[pos - 1]);
        }
        filed_at(front, def, pos);
        assert(defs[defs.len() - 1] == defs.last());
        assert(front.take(pos) =~= defs.take(pos));
        assert((front.take(pos).push(def) + front.skip(pos)).push(defs.last()) =~= defs.take(
            pos,
        ).push(def) + defs.skip(pos));
    }
}

fn file_definition<'a>(sorted: &mut Vec<&'a KvDefinition>, def: &'a KvDefinition)
    ensures
        referred(final(sorted)@) == filed(referred(old(sorted)@), def@),
{
    let ghost before = referred(sorted@);
    let key = def.full_key(namespace::DEFAULT_NAMESPACE);
    let mut pos: usize = sorted.len();
    let mut searching = true;
    while searching && pos > 0
        invariant
            pos <= sorted.len(),
            key@ == file_key(def@),
            before == referred(sorted@),
            forall|j: int|
                pos <= j < before.len() ==> text::text_lt(
                    file_key(def@),
                    file_key(#[trigger] before[j]),
                ),
            !searching ==> pos > 0 && !text::text_lt(file_key(def@), file_key(before[pos - 1])),
        decreases pos, searching as int,
    {
        let prev: &KvDefinition = sorted[pos - 1];
        let prev_key = prev.full_key(namespace::DEFAULT_NAMESPACE);
        assert(before[pos - 1] == prev@);
        if text::stands_before(key.as_str(), prev_key.as_str()) {
            pos -= 1;
        } else {
            searching = false;
        }
    }
    proof {
        filed_at(before, def@, pos as int);
    }
    sorted.insert(pos, def);
    assert(referred(sorted@) =~= before.take(pos as int).push(def@) + before.skip(pos as int));
}

fn sorted_definitions<'a>(defs: &'a [KvDefinition]) -> (r: Vec<&'a KvDefinition>)
    ensures
        referred(r@) == in_key_order(defs.deep_view()),
{
    let ghost views = defs.deep_view();
    let mut sorted: Vec<&'a KvDefinition> = Vec::new();
    let mut i: usize = 0;
    proof {
        assert(views.take(0) =~= Seq::<DefView>::empty());
        assert(referred(sorted@) =~= Seq::<DefView>::empty());
    }
    while i < defs.len()
        invariant
            i <= defs.len(),
            views == defs.deep_view(),
            referred(sorted@) == in_key_order(views.take(i as int)),
        decreases defs.len() - i,
    {
        proof {
            assert(views.take(i + 1).drop_last() =~= views.take(i as int));
            assert(views.take(i + 1).last() == defs@[i as int]@);
        }
        file_definition(&mut sorted, &defs[i]);
        i += 1;
    }
    assert(views.take(i as int) =~= views);
    sorted
}

/// A control character, which a text of TOML cannot hold as it is. A tab it can.
pub open spec fn is_toml_control(c: char) -> bool {
    (c < ' ' && c != '\t') || c == '\u{7f}'
}

pub(crate) proof fn control_codes_are_small(c: char)
    ensures
        is_toml_control(c) ==> c as nat <= 0x7f && c as u32 as nat == c as nat,
{
}

/// The hexadecimal digit of a number below sixteen.
pub open spec fn hex_digit(n: nat) -> char {
    if n < 10 {
        ('0' as nat + n) as char
    } else {
        ('A' as nat + n - 10) as char
    }
}

/// A character inside the double quotes of TOML: quotes and backslashes stand
/// behind a backslash, control characters are given by their number.
pub open spec fn toml_unit(c: char) -> Seq<char> {
    if c == '\\' || c == '"' {
        seq!['\\', c]
    } else if is_toml_control(c) {
        seq!['\\', 'u', '0', '0', hex_digit(c as nat / 16), hex_digit(c as nat % 16)]
    } else {
        seq![c]
    }
}

/// A text inside the double quotes of TOML.
pub open spec fn toml_escaped(s: Seq<char>) -> Seq<char>
    decreases s.len(),
{
    if s.len() == 0 {
        Seq::empty()
    } else {
        toml_escaped(s.drop_last()) + toml_unit(s.last())
    }
}

/// A text in the double quotes of TOML.
pub open spec fn toml_quoted(s: Seq<char>) -> Seq<char> {
    "\""@ + toml_escaped(s) + "\""@
}

/// A TOML array of texts.
pub open spec fn toml_array(items: Seq<Seq<char>>) -> Seq<char> {
    "["@ + text::joined(items.map_values(|s: Seq<char>| toml_quoted(s)), ", "@) + "]"@
}

fn hex_char(n: u32) -> (r: char)
    requires
        n < 16,
    ensures
        r == hex_digit(n as nat),
{
    match n {
        0 => '0',
        1 => '1',
        2 => '2',
        3 => '3',
        4 => '4',
        5 => '5',
        6 => '6',
        7 => '7',
        8 => '8',
        9 => '9',
        10 => 'A',
        11 => 'B',
        12 => 'C',
        13 => 'D',
        14 => 'E',
        _ => 'F',
    }
}

fn toml_quote(s: &str) -> (r: String)
    ensures
        r@ == toml_quoted(s@),
{
    let chars = text::chars_of(s);
    let mut out = String::new();
    let mut i: usize = 0;
    assert(s@.take(0) =~= Seq::<char>::empty());
    while i < chars.len()
        invariant
            i <= chars.len(),
            chars@ == s@,
            out@ == toml_escaped(s@.take(i as int)),
        decreases chars.len() - i,
    {
        proof {
            assert(s@.take(i + 1).drop_last() =~= s@.take(i as int));
            assert(s@.take(i + 1).last() == s@[i as int]);
        }
        let ghost before = out@;
        let c = chars[i];
        if c == '\\' || c == '"' {
            out.push('\\');
            out.push(c);
        } else if (c < ' ' && c != '\t') || c == '\u{7f}' {
            let code: u32 = c as u32;
            proof {
                control_codes_are_small(c);
            }
            out.push('\\');
            out.push('u');
            out.push('0');
            out.push('0');
            out.push(hex_char(code / 16));
            out.push(hex_char(code % 16));
        } else {
            out.push(c);
        }
        assert(out@ =~= before + toml_unit(c));
        i += 1;
    }
    assert(s@.take(i as int) =~= s@);
    "\"".to_owned().concat(out.as_str()).concat("\"")
}

/// The TOML array of `items`, each as a basic string.
pub fn toml_string_array(items: &[String]) -> (r: String)
    ensures
        r@ == toml_array(items.deep_view()),
{
    let mut parts: Vec<String> = Vec::new();
    let ghost quoted = items.deep_view().map_values(|s: Seq<char>| toml_quoted(s));
    let mut i: usize = 0;
    while i < items.len()
        invariant
            i <= items.len(),
            quoted == items.deep_view().map_values(|s: Seq<char>| toml_quoted(s)),
            parts.deep_view() == quoted.take(i as int),
        decreases items.len() - i,
    {
        text::push_text(&mut parts, toml_quote(items[i].as_str()));
        assert(parts.deep_view() =~= quoted.take(i + 1));
        i += 1;
    }
    assert(quoted.take(i as int) =~= quoted);
    let slice = parts.as_slice();
    assert(slice.deep_view() =~= parts.deep_view());
    "[".to_owned().concat(text::join(slice, ", ").as_str()).concat("]")
}

/// The line that gives `label` a time to live of `secs` seconds.
pub open spec fn ttl_line(label: Seq<char>, secs: Option<u64>) -> Seq<char> {
    match secs {
        Some(n) => label + " = \""@ + text::decimal(n as nat) + "s\"\n"@,
        None => Seq::empty(),
    }
}

fn ttl_line_text(label: &str, secs: Option<u64>) -> (r: String)
    ensures
        r@ == ttl_line(label@, secs),
{
    match secs {
        Some(n) => label.to_owned().concat(" = \"").concat(text::number_text(n).as_str()).concat(
            "s\"\n",
        ),
        None => String::new(),
    }
}

/// The lines that give a value type: none for an opaque value.
pub open spec fn meta_lines(meta: MetaView) -> Seq<char> {
    match meta.type_label {
        None => Seq::empty(),
        Some(t) => "type = \""@ + t + "\"\n"@ + (match config::param_value(
            meta.params,
            "digits"@,
        ) {
            Some(d) => "otp-digits = "@ + d + "\n"@,
            None => Seq::empty(),
        }) + (match config::param_value(meta.params, "period"@) {
            Some(p) => "otp-period = "@ + p + "\n"@,
            None => Seq::empty(),
        }) + (match config::param_value(meta.params, "algorithm"@) {
            Some(a) => "otp-algorithm = \""@ + a + "\"\n"@,
            None => Seq::empty(),
        }),
    }
}

fn meta_lines_text(meta: &ValueMetaWire) -> (r: String)
    ensures
        r@ == meta_lines(meta@),
{
    let label = match &meta.type_label {
        None => {
            return String::new();
        },
        Some(t) => t,
    };
    let params = meta.params.as_slice();
    let digits = match config::find_param(params, "digits") {
        Some(d) => "otp-digits = ".to_owned().concat(d.as_str()).concat("\n"),
        None => String::new(),
    };
    let period = match config::find_param(params, "period") {
        Some(p) => "otp-period = ".to_owned().concat(p.as_str()).concat("\n"),
        None => String::new(),
    };
    let algorithm = match config::find_param(params, "algorithm") {
        Some(a) => "otp-algorithm = \"".to_owned().concat(a.as_str()).concat("\"\n"),
        None => String::new(),
    };
    "type = \"".to_owned().concat(label.as_str()).concat("\"\n").concat(digits.as_str()).concat(
        period.as_str(),
    ).concat(algorithm.as_str())
}

/// The table of one definition.
pub open spec fn definition_table(def: DefView) -> Seq<char> {
    let ns = match def.namespace {
        Some(n) => n,
        None => "default"@,
    };
    "[kv."@ + ns + "."@ + def.name + "]\n"@ + "command = "@ + toml_array(
        config::source_argv(def.source),
    ) + "\n"@
        + ttl_line("soft-ttl"@, def.soft_ttl_secs) + ttl_line("hard-ttl"@, def.hard_ttl_secs)
        + meta_lines(def.meta)
}

fn definition_table_text(def: &KvDefinition) -> (r: String)
    ensures
        r@ == definition_table(def@),
{
    let ns = match &def.namespace {
        Some(n) => n.as_str(),
        None => namespace::DEFAULT_NAMESPACE,
    };
    let argv = def.source.argv();
    let command = argv.as_slice();
    assert(command.deep_view() =~= argv.deep_view());
    "[kv.".to_owned().concat(ns).concat(".").concat(def.name.as_str()).concat("]\n").concat(
        "command = ",
    ).concat(toml_string_array(command).as_str()).concat("\n").concat(
        ttl_line_text("soft-ttl", def.soft_ttl_secs).as_str(),
    ).concat(ttl_line_text("hard-ttl", def.hard_ttl_secs).as_str()).concat(
        meta_lines_text(&def.meta).as_str(),
    )
}

/// The persisted file of the definitions: one table each, in the order of their
/// keys, with an empty line between neighbours.
pub open spec fn definitions_file(defs: Seq<DefView>) -> Seq<char> {
    text::joined(in_key_order(defs).map_values(|d: DefView| definition_table(d)), "\n"@)
}

/// Write definitions in the persisted format.
pub fn serialize_definitions(defs: &[KvDefinition]) -> (r: String)
    ensures
        r@ == definitions_file(defs.deep_view()),
{
    let sorted = sorted_definitions(defs);
    let ghost tables = referred(sorted@).map_values(|d: DefView| definition_table(d));
    let mut out: Vec<String> = Vec::new();
    let mut i: usize = 0;
    while i < sorted.len()
        invariant
            i <= sorted.len(),
            tables == referred(sorted@).map_values(|d: DefView| definition_table(d)),
            out.deep_view() == tables.take(i as int),
        decreases sorted.len() - i,
    {
        text::push_text(&mut out, definition_table_text(sorted[i]));
        assert(out.deep_view() =~= tables.take(i + 1));
        i += 1;
    }
    assert(tables.take(i as int) =~= tables);
    let slice = out.as_slice();
    assert(slice.deep_view() =~= out.deep_view());
    text::join(slice, "\n")
}

/// The metadata of a definition, as the wire carries it.
pub fn meta_to_wire(meta: ValueMeta) -> (r: ValueMetaWire)
    ensures
        r@ == meta@,
{
    ValueMetaWire { type_label: meta.type_label, params: meta.params }
}

/// A key of the store and its definition, where it has one.
#[derive(Debug, Clone, PartialEq, Eq)]
pub struct StoreKey {
    pub key: String,
    pub definition: Option<StoredDefinition>,
}

/// A definition as the store keeps it: `command` is the argument vector of a
/// command source.
#[derive(Debug, Clone, PartialEq, Eq)]
pub struct StoredDefinition {
    pub command: Option<Vec<String>>,
    pub soft_ttl_secs: Option<u64>,
    pub hard_ttl_secs: Option<u64>,
    pub meta: ValueMeta,
}

/// What is persisted of a key: its definition by a command, where it has one
/// and is a composed key.
pub open spec fn persistable(key: StoreKey) -> Option<DefView> {
    match (key.definition, namespace::composed_parts(key.key@)) {
        (Some(def), Some((ns, name))) => match def.command {
            Some(argv) => Some(
                DefView {
                    name,
                    namespace: Some(ns),
                    source: config::plain_command(argv.deep_view()),
                    soft_ttl_secs: def.soft_ttl_secs,
                    hard_ttl_secs: def.hard_ttl_secs,
                    preload: false,
                    meta: def.meta@,
                },
            ),
            None => None,
        },
        _ => None,
    }
}

/// What is persisted of a list of keys.
pub open spec fn persistable_all(keys: Seq<StoreKey>) -> Seq<DefView>
    decreases keys.len(),
{
    if keys.len() == 0 {
        Seq::empty()
    } else {
        match persistable(keys.last()) {
            Some(def) => persistable_all(keys.drop_last()).push(def),
            None => persistable_all(keys.drop_last()),
        }
    }
}

fn copy_params(params: &[(String, String)]) -> (r: Vec<(String, String)>)
    ensures
        config::param_texts(r@) == config::param_texts(params@),
{
    let ghost texts = config::param_texts(params@);
    let mut out: Vec<(String, String)> = Vec::new();
    let mut i: usize = 0;
    assert(config::param_texts(out@) =~= texts.take(0));
    while i < params.len()
        invariant
            i <= params.len(),
            texts == config::param_texts(params@),
            config::param_texts(out@) == texts.take(i as int),
        decreases params.len() - i,
    {
        let ghost before = config::param_texts(out@);
        out.push((params[i].0.clone(), params[i].1.clone()));
        assert(config::param_texts(out@) =~= before.push(texts[i as int]));
        assert(before.push(texts[i as int]) =~= texts.take(i + 1));
        i += 1;
    }
    assert(texts.take(i as int) =~= texts);
    out
}

fn copy_label(label: &Option<String>) -> (r: Option<String>)
    ensures
        r.deep_view() == label.deep_view(),
{
    match label {
        Some(t) => Some(t.clone()),
        None => None,
    }
}

/// A copy of a source.
pub fn copy_source(source: &SourceSpecWire) -> (r: SourceSpecWire)
    ensures
        r@ == source@,
{
    match source {
        SourceSpecWire::Command { command } => {
            let argv = command.argv.as_slice();
            assert(argv.deep_view() =~= command.argv.deep_view());
            SourceSpecWire::Command {
                command: CommandSpecWire {
                    argv: text::copy_texts(argv),
                    cwd: copy_label(&command.cwd),
                    env: copy_params(command.env.as_slice()),
                },
            }
        },
        SourceSpecWire::Op { op } => SourceSpecWire::Op {
            op: OpSpecWire { uri: op.uri.clone(), account: copy_label(&op.account) },
        },
    }
}

/// A copy of a definition.
pub fn copy_definition(def: &KvDefinition) -> (r: KvDefinition)
    ensures
        r@ == def@,
{
    KvDefinition {
        name: def.name.clone(),
        namespace: copy_label(&def.namespace),
        source: copy_source(&def.source),
        soft_ttl_secs: def.soft_ttl_secs,
        hard_ttl_secs: def.hard_ttl_secs,
        preload: def.preload,
        meta: ValueMetaWire {
            type_label: copy_label(&def.meta.type_label),
            params: copy_params(def.meta.params.as_slice()),
        },
    }
}

fn snapshot_definition(key: &StoreKey) -> (r: Option<KvDefinition>)
    ensures
        r.deep_view() == persistable(*key),
{
    let def = match &key.definition {
        None => {
            return None;
        },
        Some(d) => d,
    };
    let argv = match &def.command {
        None => {
            return None;
        },
        Some(a) => a,
    };
    match namespace::split_composed(key.key.as_str()) {
        None => None,
        Some((ns, name)) => {
            let command = argv.as_slice();
            assert(command.deep_view() =~= argv.deep_view());
            let meta = ValueMeta {
                type_label: copy_label(&def.meta.type_label),
                params: copy_params(def.meta.params.as_slice()),
            };
            assert(meta@ =~= def.meta@);
            Some(
                KvDefinition {
                    name: name.to_owned(),
                    namespace: Some(ns.to_owned()),
                    source: SourceSpecWire::command(text::copy_texts(command)),
                    soft_ttl_secs: def.soft_ttl_secs,
                    hard_ttl_secs: def.hard_ttl_secs,
                    preload: false,
                    meta: meta_to_wire(meta),
                },
            )
        },
    }
}

/// The definitions of the store as they are persisted, in the order of their
/// keys. Values play no part in it.
pub fn snapshot_definitions(keys: &[StoreKey]) -> (r: Vec<KvDefinition>)
    ensures
        r.deep_view() == in_key_order(persistable_all(keys@)),
{
    let mut found: Vec<KvDefinition> = Vec::new();
    let mut i: usize = 0;
    proof {
        assert(keys@.take(0) =~= Seq::<StoreKey>::empty());
        assert(found.deep_view() =~= Seq::<DefView>::empty());
    }
    while i < keys.len()
        invariant
            i <= keys.len(),
            found.deep_view() == persistable_all(keys@.take(i as int)),
        decreases keys.len() - i,
    {
        let ghost before = found.deep_view();
        proof {
            assert(keys@.take(i + 1).drop_last() =~= keys@.take(i as int));
            assert(keys@.take(i + 1).last() == keys@[i as int]);
        }
        if let Some(def) = snapshot_definition(&keys[i]) {
            found.push(def);
            assert(found.deep_view() =~= before.push(def@));
        }
        i += 1;
    }
    assert(keys@.take(i as int) =~= keys@);
    let slice = found.as_slice();
    assert(slice.deep_view() =~= found.deep_view());
    let sorted = sorted_definitions(slice);
    let ghost want = referred(sorted@);
    let mut out: Vec<KvDefinition> = Vec::new();
    let mut k: usize = 0;
    while k < sorted.len()
        invariant
            k <= sorted.len(),
            want == referred(sorted@),
            out.deep_view() == want.take(k as int),
        decreases sorted.len() - k,
    {
        let ghost before = out.deep_view();
        let def = copy_definition(sorted[k]);
        out.push(def);
        assert(out.deep_view() =~= before.push(def@));
        assert(before.push(def@) =~= want.take(k + 1));
        k += 1;
    }
    assert(want.take(k as int) =~= want);
    out
}

/// The definitions that a user's file holds: `tables` is what its text reads as,
/// or why it does not read.
pub open spec fn defs_read(tables: Result<Seq<(Seq<char>, EntryView)>, Seq<char>>) -> Result<
    Seq<DefView>,
    Seq<char>,
> {
    match tables {
        Err(e) => Err("invalid TOML: "@ + e),
        Ok(entries) => validated_all(entries),
    }
}

/// The definitions that a persisted file holds: `tables` is what its text reads
/// as, or why it does not read.
pub open spec fn persisted_read(
    tables: Result<Seq<(Seq<char>, Seq<(Seq<char>, EntryView)>)>, Seq<char>>,
) -> Result<Seq<DefView>, Seq<char>> {
    match tables {
        Err(e) => Err("invalid TOML: "@ + e),
        Ok(t) => persisted_all(t),
    }
}

/// The tables of a user's file, or why its text does not read.
pub open spec fn tables_or_fault(tables: Result<Vec<NamedEntry>, String>) -> Result<
    Seq<(Seq<char>, EntryView)>,
    Seq<char>,
> {
    match tables {
        Ok(entries) => Ok(entries.deep_view()),
        Err(e) => Err(e@),
    }
}

/// The tables of a persisted file, or why its text does not read.
pub open spec fn persist_tables_or_fault(tables: Result<Vec<PersistTable>, String>) -> Result<
    Seq<(Seq<char>, Seq<(Seq<char>, EntryView)>)>,
    Seq<char>,
> {
    match tables {
        Ok(t) => Ok(t.deep_view()),
        Err(e) => Err(e@),
    }
}

/// The definitions of a user's file: `tables` is what its text reads as, in the
/// order of the names, or why it does not read.
pub fn parse_defs(tables: Result<Vec<NamedEntry>, String>) -> (r: Result<
    Vec<KvDefinition>,
    ConfigError,
>)
    ensures
        match defs_read(tables_or_fault(tables)) {
            Ok(defs) => r matches Ok(ds) && ds.deep_view() == defs,
            Err(message) => r matches Err(e) && e.message@ == message,
        },
{
    match tables {
        Err(e) => Err(ConfigError::new("invalid TOML: ".to_owned().concat(e.as_str()))),
        Ok(entries) => {
            let slice = entries.as_slice();
            assert(slice.deep_view() =~= entries.deep_view());
            validate_defs(slice)
        },
    }
}

/// The definitions of the file at `path`: `read` is what its text reads as, or
/// why the file could not be read.
pub fn parse_defs_file(
    path: &str,
    read: Result<Result<Vec<NamedEntry>, String>, String>,
) -> (r: Result<Vec<KvDefinition>, String>)
    ensures
        match read {
            Err(e) => r matches Err(m) && m@ == "cannot read defs file "@ + path@ + ": "@ + e@,
            Ok(tables) => match defs_read(tables_or_fault(tables)) {
                Ok(defs) => r matches Ok(ds) && ds.deep_view() == defs,
                Err(e) => r matches Err(m) && m@ == "invalid defs file "@ + path@ + ": "@ + e,
            },
        },
{
    match read {
        Err(e) => Err(
            "cannot read defs file ".to_owned().concat(path).concat(": ").concat(e.as_str()),
        ),
        Ok(tables) => match parse_defs(tables) {
            Ok(defs) => Ok(defs),
            Err(e) => Err(
                "invalid defs file ".to_owned().concat(path).concat(": ").concat(
                    e.message.as_str(),
                ),
            ),
        },
    }
}

/// The definitions of a persisted file: `tables` is what its text reads as, in
/// the order of the names, or why it does not read.
pub fn parse_persisted(tables: Result<Vec<PersistTable>, String>) -> (r: Result<
    Vec<KvDefinition>,
    ConfigError,
>)
    ensures
        match persisted_read(persist_tables_or_fault(tables)) {
            Ok(defs) => r matches Ok(ds) && ds.deep_view() == defs,
            Err(message) => r matches Err(e) && e.message@ == message,
        },
{
    match tables {
        Err(e) => Err(ConfigError::new("invalid TOML: ".to_owned().concat(e.as_str()))),
        Ok(t) => {
            let slice = t.as_slice();
            assert(slice.deep_view() =~= t.deep_view());
            validate_persisted(slice)
        },
    }
}

/// What came of reading the persisted file.
#[derive(Debug, PartialEq, Eq)]
pub enum PersistedFile {
    /// There is none: a first run.
    Missing,
    Failed(String),
    /// What the text of the file reads as.
    Read(Result<Vec<PersistTable>, String>),
}

/// The persisted definitions. A file that is not there holds none; one that
/// cannot be read is an error, which names the file.
pub fn load_definitions(path: &str, file: PersistedFile) -> (r: Result<Vec<KvDefinition>, String>)
    ensures
        match file {
            PersistedFile::Missing => r matches Ok(ds) && ds@.len() == 0,
            PersistedFile::Failed(e) => r matches Err(m) && m@ == "cannot read persisted definitions "@
                + path@ + ": "@ + e@,
            PersistedFile::Read(tables) => match persisted_read(persist_tables_or_fault(tables)) {
                Ok(defs) => r matches Ok(ds) && ds.deep_view() == defs,
                Err(e) => r matches Err(m) && m@ == "invalid persisted definitions "@ + path@
                    + ": "@ + e,
            },
        },
{
    match file {
        PersistedFile::Missing => Ok(Vec::new()),
        PersistedFile::Failed(e) => Err(
            "cannot read persisted definitions ".to_owned().concat(path).concat(": ").concat(
                e.as_str(),
            ),
        ),
        PersistedFile::Read(tables) => match parse_persisted(tables) {
            Ok(defs) => Ok(defs),
            Err(e) => Err(
                "invalid persisted definitions ".to_owned().concat(path).concat(": ").concat(
                    e.message.as_str(),
                ),
            ),
        },
    }
}

/// The state directory: `$XDG_STATE_HOME` where it is set and not empty, else
/// `.local/state` in the home directory.
pub open spec fn state_dir(state_home: Option<Seq<char>>, home: Option<Seq<char>>) -> Seq<char> {
    match state_home {
        Some(dir) if dir.len() > 0 => dir,
        _ => path::joined_path(
            match home {
                Some(h) => h,
                None => Seq::empty(),
            },
            ".local/state"@,
        ),
    }
}

/// Where the persisted definitions are kept, from `$XDG_STATE_HOME` and `$HOME`.
pub fn definitions_state_path(state_home: Option<&str>, home: Option<&str>) -> (r: String)
    ensures
        r@ == path::joined_path(
            path::joined_path(
                state_dir(
                    match state_home {
                        Some(d) => Some(d@),
                        None => None,
                    },
                    match home {
                        Some(h) => Some(h@),
                        None => None,
                    },
                ),
                "cache-warden"@,
            ),
            "definitions.toml"@,
        ),
{
    let own = match state_home {
        Some(dir) if !dir.is_empty() => dir.to_owned(),
        _ => match home {
            Some(h) => path::join_path(h, ".local/state"),
            None => path::join_path("", ".local/state"),
        },
    };
    proof {
        reveal_strlit("");
        assert(""@ =~= Seq::<char>::empty());
    }
    let dir = path::join_path(own.as_str(), "cache-warden");
    path::join_path(dir.as_str(), "definitions.toml")
}

} // verus!
