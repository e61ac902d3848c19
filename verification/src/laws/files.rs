//! Laws of the definition files: what is read of them, what is kept, and where.

use vstd::prelude::*;

use crate::config;
use crate::config::{ConfigError, DefView, KvDefinition};
use crate::daemon::handler::ValueMeta;
use crate::defs;
use crate::defs::read_back;
use crate::defs::{DefEntry, EntryView, NamedEntry, PersistTable, PersistedFile, StoreKey};
use crate::laws::names;
use crate::namespace;
use crate::text;
use crate::wire::{SourceSpecWire, ValueMetaWire};

verus! {

/// The same names with the same values, in the same order.
pub open spec fn same_pairs(a: Seq<(String, String)>, b: Seq<(String, String)>) -> bool {
    a.len() == b.len() && forall|i: int|
        0 <= i < a.len() ==> (#[trigger] a[i]).0@ == b[i].0@ && a[i].1@ == b[i].1@
}

/// The same texts, in the same order.
pub open spec fn same_texts(a: Seq<String>, b: Seq<String>) -> bool {
    a.len() == b.len() && forall|i: int| 0 <= i < a.len() ==> (#[trigger] a[i])@ == b[i]@
}

/// The same value type with the same parameters.
pub open spec fn same_meta(a: ValueMetaWire, b: ValueMetaWire) -> bool {
    a.type_label.deep_view() == b.type_label.deep_view() && same_pairs(a.params@, b.params@)
}

/// The same place for a value to come from.
pub open spec fn same_source(a: SourceSpecWire, b: SourceSpecWire) -> bool {
    match (a, b) {
        (
            SourceSpecWire::Command { command: x },
            SourceSpecWire::Command { command: y },
        ) => same_texts(x.argv@, y.argv@) && x.cwd.deep_view() == y.cwd.deep_view() && same_pairs(
            x.env@,
            y.env@,
        ),
        (SourceSpecWire::Op { op: x }, SourceSpecWire::Op { op: y }) => x.uri@ == y.uri@
            && x.account.deep_view() == y.account.deep_view(),
        _ => false,
    }
}

proof fn pairs_by_their_texts(a: Seq<(String, String)>, b: Seq<(String, String)>)
    requires
        config::param_texts(a) == config::param_texts(b),
    ensures
        same_pairs(a, b),
{
    assert(config::param_texts(a).len() == a.len());
    assert(config::param_texts(b).len() == b.len());
    assert forall|i: int| 0 <= i < a.len() implies (#[trigger] a[i]).0@ == b[i].0@ && a[i].1@
        == b[i].1@ by {
        assert(config::param_texts(a)[i] == (a[i].0@, a[i].1@));
        assert(config::param_texts(b)[i] == (b[i].0@, b[i].1@));
    }
}

proof fn texts_by_their_views(a: Vec<String>, b: Vec<String>)
    requires
        a.deep_view() == b.deep_view(),
    ensures
        same_texts(a@, b@),
{
    assert(a.deep_view().len() == a@.len());
    assert(b.deep_view().len() == b@.len());
    assert forall|i: int| 0 <= i < a@.len() implies (#[trigger] a@[i])@ == b@[i]@ by {
        assert(a.deep_view()[i] == a@[i]@);
        assert(b.deep_view()[i] == b@[i]@);
    }
}

pub(crate) proof fn sources_by_their_views(a: SourceSpecWire, b: SourceSpecWire)
    requires
        a@ == b@,
    ensures
        same_source(a, b),
{
    match (a, b) {
        (SourceSpecWire::Command { command: x }, SourceSpecWire::Command { command: y }) => {
            texts_by_their_views(x.argv, y.argv);
            pairs_by_their_texts(x.env@, y.env@);
        },
        _ => {},
    }
}

pub(crate) proof fn types_by_their_views(a: ValueMetaWire, b: ValueMetaWire)
    requires
        a@ == b@,
    ensures
        same_meta(a, b),
{
    pairs_by_their_texts(a.params@, b.params@);
}

/// A copy is the same definition, in every field.
pub proof fn copies_are_the_same(def: &KvDefinition, r: KvDefinition)
    requires
        call_ensures(defs::copy_definition, (def,), r),
    ensures
        r.name@ == def.name@,
        r.namespace.deep_view() == def.namespace.deep_view(),
        same_source(r.source, def.source),
        r.soft_ttl_secs == def.soft_ttl_secs,
        r.hard_ttl_secs == def.hard_ttl_secs,
        r.preload == def.preload,
        same_meta(r.meta, def.meta),
{
    sources_by_their_views(r.source, def.source);
    types_by_their_views(r.meta, def.meta);
}

/// A copied source is the same source, and metadata cross the wire whole.
pub proof fn sources_and_types_are_carried_whole(
    source: &SourceSpecWire,
    r: SourceSpecWire,
    meta: ValueMeta,
    sent: ValueMetaWire,
)
    requires
        call_ensures(defs::copy_source, (source,), r),
        call_ensures(defs::meta_to_wire, (meta,), sent),
    ensures
        same_source(r, *source),
        sent.type_label.deep_view() == meta.type_label.deep_view(),
        same_pairs(sent.params@, meta.params@),
{
    sources_by_their_views(r, *source);
    pairs_by_their_texts(sent.params@, meta.params@);
}

/// A table is accepted where it has a command that is not empty, a sound name, a
/// sound type and sound times to live, and nothing that has no place in a file.
pub proof fn which_tables_are_accepted(
    entry: &DefEntry,
    name: &str,
    meta: Result<ValueMetaWire, ConfigError>,
    named: Result<(String, Option<String>), ConfigError>,
    soft: &str,
    soft_read: Result<u64, String>,
    hard: &str,
    hard_read: Result<u64, String>,
    r: Result<KvDefinition, ConfigError>,
)
    requires
        call_ensures(DefEntry::validate, (entry, name), r),
        call_ensures(
            config::build_kv_meta,
            (name, &entry.value_type, entry.otp_digits, entry.otp_period, &entry.otp_algorithm),
            meta,
        ),
        call_ensures(config::split_kv_entry_name, (name, &entry.namespace), named),
        entry.soft_ttl matches Some(t) ==> t@ == soft@,
        call_ensures(config::parse_duration, (soft,), soft_read),
        entry.hard_ttl matches Some(t) ==> t@ == hard@,
        call_ensures(config::parse_duration, (hard,), hard_read),
    ensures
        r is Ok <==> !entry.has_preload && !entry.has_value && !entry.has_value_stdin
            && !entry.has_static && entry.command is Some && entry.command->0@.len() > 0
            && meta is Ok && named is Ok && (entry.soft_ttl is Some ==> soft_read is Ok) && (
        entry.hard_ttl is Some ==> hard_read is Ok),
        r matches Err(e) ==> ("[kv."@ + name@ + "]: "@).is_prefix_of(e.message@) || meta is Err
            || named is Err,
{
    if let Some(argv) = entry.command {
        assert(argv.deep_view().len() == argv@.len());
    }
    if let Err(e) = r {
        if meta is Ok && named is Ok {
            let lead = "[kv."@ + name@ + "]: "@;
            assert(e.message@.take(lead.len() as int) =~= lead);
        }
    }
}

/// An accepted table gives its command, its times to live and its type, under
/// its own name; it is never run at the start.
pub proof fn what_a_table_stands_for(
    entry: &DefEntry,
    name: &str,
    meta: ValueMetaWire,
    soft: &str,
    soft_read: u64,
    hard: &str,
    hard_read: u64,
    r: KvDefinition,
)
    requires
        call_ensures(DefEntry::validate, (entry, name), Ok(r)),
        call_ensures(
            config::build_kv_meta,
            (name, &entry.value_type, entry.otp_digits, entry.otp_period, &entry.otp_algorithm),
            Ok(meta),
        ),
        entry.soft_ttl matches Some(t) ==> t@ == soft@,
        call_ensures(config::parse_duration, (soft,), Ok(soft_read)),
        entry.hard_ttl matches Some(t) ==> t@ == hard@,
        call_ensures(config::parse_duration, (hard,), Ok(hard_read)),
    ensures
        r.name@ == name@,
        r.namespace.deep_view() == entry.namespace.deep_view(),
        r.source matches SourceSpecWire::Command { command } && same_texts(
            command.argv@,
            entry.command->0@,
        ) && command.cwd is None && command.env@.len() == 0,
        r.soft_ttl_secs == if entry.soft_ttl is Some {
            Some(soft_read)
        } else {
            None
        },
        r.hard_ttl_secs == if entry.hard_ttl is Some {
            Some(hard_read)
        } else {
            None
        },
        !r.preload,
        same_meta(r.meta, meta),
{
    types_by_their_views(r.meta, meta);
    if let SourceSpecWire::Command { command } = r.source {
        texts_by_their_views(command.argv, entry.command->0);
        assert(config::param_texts(command.env@).len() == command.env@.len());
    }
}

proof fn accepted_one_by_one(entries: Seq<(Seq<char>, EntryView)>, i: int)
    requires
        0 <= i < entries.len(),
    ensures
        defs::validated_all(entries) matches Ok(all) ==> all.len() == entries.len()
            && defs::validated(entries[i].1, entries[i].0) == Ok::<DefView, Seq<char>>(all[i]),
        (forall|j: int|
            0 <= j < entries.len() ==> defs::validated(
                (#[trigger] entries[j]).1,
                entries[j].0,
            ) is Ok) ==> defs::validated_all(entries) is Ok,
        (forall|j: int|
            0 <= j < i ==> defs::validated((#[trigger] entries[j]).1, entries[j].0) is Ok)
            && defs::validated(entries[i].1, entries[i].0) is Err ==> defs::validated_all(entries)
            == Err::<Seq<DefView>, Seq<char>>(
            defs::validated(entries[i].1, entries[i].0)->Err_0,
        ),
    decreases entries.len(),
{
    let before = entries.drop_last();
    assert(forall|j: int| 0 <= j < before.len() ==> before[j] == entries[j]);
    if i < before.len() {
        accepted_one_by_one(before, i);
    } else if before.len() > 0 {
        accepted_one_by_one(before, 0);
    }
}

/// The definitions of a file are those of its tables, each in its place; one
/// refused table refuses the file, and the first that is refused tells why.
pub proof fn files_are_read_table_by_table(
    entries: &[NamedEntry],
    i: int,
    name: &str,
    one: Result<KvDefinition, ConfigError>,
    r: Result<Vec<KvDefinition>, ConfigError>,
)
    requires
        0 <= i < entries@.len(),
        name@ == entries@[i].name@,
        call_ensures(DefEntry::validate, (&entries@[i].entry, name), one),
        call_ensures(defs::validate_defs, (entries,), r),
    ensures
        r matches Ok(all) ==> all@.len() == entries@.len() && one is Ok && all@[i]@ == one->Ok_0@,
        one is Err ==> r is Err,
        one is Err && (forall|j: int|
            0 <= j < i ==> defs::validated(
                (#[trigger] entries@[j]).entry@,
                entries@[j].name@,
            ) is Ok) ==> r->Err_0.message@ == one->Err_0.message@,
{
    let views = entries.deep_view();
    assert(views.len() == entries@.len());
    assert forall|j: int| 0 <= j < views.len() implies #[trigger] views[j] == (
        entries@[j].name@,
        entries@[j].entry@,
    ) by {
        assert(views[j] == entries@[j].deep_view());
    }
    if one is Err && (forall|j: int|
        0 <= j < i ==> defs::validated((#[trigger] entries@[j]).entry@, entries@[j].name@) is Ok) {
        assert forall|j: int| 0 <= j < i implies defs::validated(
            (#[trigger] views[j]).1,
            views[j].0,
        ) is Ok by {
            assert(defs::validated(entries@[j].entry@, entries@[j].name@) is Ok);
        }
    }
    accepted_one_by_one(views, i);
    if let Ok(all) = r {
        assert(all.deep_view().len() == all@.len());
        assert(all.deep_view()[i] == all@[i]@);
    }
}

/// A file none of whose tables is refused is not refused.
pub proof fn sound_files_are_read(
    entries: &[NamedEntry],
    names: Seq<&str>,
    each: Seq<KvDefinition>,
    r: Result<Vec<KvDefinition>, ConfigError>,
)
    requires
        names.len() == entries@.len(),
        each.len() == entries@.len(),
        forall|j: int|
            0 <= j < each.len() ==> names[j]@ == entries@[j].name@ && call_ensures(
                DefEntry::validate,
                (&entries@[j].entry, names[j]),
                Ok(#[trigger] each[j]),
            ),
        call_ensures(defs::validate_defs, (entries,), r),
    ensures
        r is Ok,
{
    let views = entries.deep_view();
    assert(views.len() == entries@.len());
    assert forall|j: int| 0 <= j < views.len() implies defs::validated(
        (#[trigger] views[j]).1,
        views[j].0,
    ) is Ok by {
        assert(views[j] == entries@[j].deep_view());
        assert(call_ensures(DefEntry::validate, (&entries@[j].entry, names[j]), Ok(each[j])));
    }
    if views.len() > 0 {
        accepted_one_by_one(views, 0);
    }
}

/// A file that does not read is refused, and told apart from one that is not
/// there; either complaint names the file.
pub proof fn unread_files_are_refused(
    path: &str,
    read: Result<Result<Vec<NamedEntry>, String>, String>,
    tables: Result<Vec<NamedEntry>, String>,
    parsed: Result<Vec<KvDefinition>, ConfigError>,
    r: Result<Vec<KvDefinition>, String>,
)
    requires
        read matches Ok(t) ==> t == tables,
        call_ensures(defs::parse_defs, (tables,), parsed),
        call_ensures(defs::parse_defs_file, (path, read), r),
    ensures
        tables matches Err(e) ==> (parsed matches Err(p) && p.message@ == "invalid TOML: "@ + e@),
        r is Ok <==> read is Ok && parsed is Ok,
        r is Ok ==> r->Ok_0.deep_view() == parsed->Ok_0.deep_view(),
        read matches Err(e) ==> r->Err_0@ == "cannot read defs file "@ + path@ + ": "@ + e@,
        read is Ok && parsed is Err ==> r->Err_0@ == "invalid defs file "@ + path@ + ": "@
            + parsed->Err_0.message@,
{
}

/// What a read file holds is what its tables stand for.
pub proof fn read_files_are_their_tables(
    tables: Vec<NamedEntry>,
    entries: &[NamedEntry],
    checked: Result<Vec<KvDefinition>, ConfigError>,
    parsed: Result<Vec<KvDefinition>, ConfigError>,
)
    requires
        entries@ == tables@,
        call_ensures(defs::validate_defs, (entries,), checked),
        call_ensures(defs::parse_defs, (Ok(tables),), parsed),
    ensures
        parsed is Ok <==> checked is Ok,
        parsed matches Ok(all) ==> all.deep_view() == checked->Ok_0.deep_view(),
        parsed matches Err(e) ==> e.message@ == checked->Err_0.message@,
{
    assert(entries.deep_view() =~= tables.deep_view());
}

/// A file that was never written holds no definition; one that is there and
/// does not read is refused, and the complaint names it.
pub proof fn a_missing_file_holds_nothing(
    path: &str,
    file: PersistedFile,
    tables: Result<Vec<PersistTable>, String>,
    parsed: Result<Vec<KvDefinition>, ConfigError>,
    r: Result<Vec<KvDefinition>, String>,
)
    requires
        file matches PersistedFile::Read(t) ==> t == tables,
        call_ensures(defs::parse_persisted, (tables,), parsed),
        call_ensures(defs::load_definitions, (path, file), r),
    ensures
        file is Missing ==> r is Ok && r->Ok_0@.len() == 0,
        file is Failed ==> r is Err && r->Err_0@ == "cannot read persisted definitions "@ + path@
            + ": "@ + file->Failed_0@,
        file is Read ==> (r is Ok <==> parsed is Ok),
        file is Read && r is Ok ==> r->Ok_0.deep_view() == parsed->Ok_0.deep_view(),
        file is Read && r is Err ==> r->Err_0@ == "invalid persisted definitions "@ + path@ + ": "@
            + parsed->Err_0.message@,
        tables is Err ==> parsed is Err,
{
}

proof fn kept_tables_add_up(
    a: Seq<(Seq<char>, Seq<(Seq<char>, EntryView)>)>,
    b: Seq<(Seq<char>, Seq<(Seq<char>, EntryView)>)>,
)
    ensures
        match (defs::persisted_all(a), defs::persisted_all(b)) {
            (Ok(x), Ok(y)) => defs::persisted_all(a + b) == Ok::<Seq<DefView>, Seq<char>>(x + y),
            (Err(e), _) => defs::persisted_all(a + b) == Err::<Seq<DefView>, Seq<char>>(e),
            (_, Err(e)) => defs::persisted_all(a + b) == Err::<Seq<DefView>, Seq<char>>(e),
        },
    decreases b.len(),
{
    if b.len() == 0 {
        assert(a + b =~= a);
        if let Ok(x) = defs::persisted_all(a) {
            assert(x + Seq::<DefView>::empty() =~= x);
        }
    } else {
        kept_tables_add_up(a, b.drop_last());
        assert((a + b).drop_last() =~= a + b.drop_last());
        assert((a + b).last() == b.last());
        if defs::persisted_all(a) is Ok && defs::persisted_all(b) is Ok {
            let x = defs::persisted_all(a)->Ok_0;
            let y = defs::persisted_all(b.drop_last())->Ok_0;
            let z = defs::persisted_table(b.last())->Ok_0;
            assert((x + y) + z =~= x + (y + z));
        }
    }
}

proof fn kept_entries_add_up(
    ns: Seq<char>,
    a: Seq<(Seq<char>, EntryView)>,
    b: Seq<(Seq<char>, EntryView)>,
)
    ensures
        match (defs::persisted_entries(ns, a), defs::persisted_entries(ns, b)) {
            (Ok(x), Ok(y)) => defs::persisted_entries(ns, a + b) == Ok::<Seq<DefView>, Seq<char>>(
                x + y,
            ),
            (Err(e), _) => defs::persisted_entries(ns, a + b) == Err::<Seq<DefView>, Seq<char>>(e),
            (_, Err(e)) => defs::persisted_entries(ns, a + b) == Err::<Seq<DefView>, Seq<char>>(e),
        },
    decreases b.len(),
{
    if b.len() == 0 {
        assert(a + b =~= a);
        if let Ok(x) = defs::persisted_entries(ns, a) {
            assert(x + Seq::<DefView>::empty() =~= x);
        }
    } else {
        kept_entries_add_up(ns, a, b.drop_last());
        assert((a + b).drop_last() =~= a + b.drop_last());
        assert((a + b).last() == b.last());
        if defs::persisted_entries(ns, a) is Ok && defs::persisted_entries(ns, b) is Ok {
            let x = defs::persisted_entries(ns, a)->Ok_0;
            let y = defs::persisted_entries(ns, b.drop_last())->Ok_0;
            let z = defs::persisted_entry(ns, b.last().0, b.last().1)->Ok_0;
            assert((x + y).push(z) =~= x + y.push(z));
        }
    }
}

/// The definitions of a kept file are those of its tables, one behind the other,
/// and the first table that is refused tells why.
pub proof fn kept_tables_follow_one_another(
    first: &[PersistTable],
    second: &[PersistTable],
    all: &[PersistTable],
    a: Result<Vec<KvDefinition>, ConfigError>,
    b: Result<Vec<KvDefinition>, ConfigError>,
    r: Result<Vec<KvDefinition>, ConfigError>,
)
    requires
        all@ == first@ + second@,
        call_ensures(defs::validate_persisted, (first,), a),
        call_ensures(defs::validate_persisted, (second,), b),
        call_ensures(defs::validate_persisted, (all,), r),
    ensures
        r is Ok <==> a is Ok && b is Ok,
        r is Ok ==> r->Ok_0.deep_view() == a->Ok_0.deep_view() + b->Ok_0.deep_view(),
        a is Err ==> r->Err_0.message@ == a->Err_0.message@,
        a is Ok && b is Err ==> r->Err_0.message@ == b->Err_0.message@,
{
    assert(all.deep_view() =~= first.deep_view() + second.deep_view());
    kept_tables_add_up(first.deep_view(), second.deep_view());
}

/// The same holds of the entries of one table.
pub proof fn kept_entries_follow_one_another(
    first: &[PersistTable],
    second: &[PersistTable],
    all: &[PersistTable],
    a: Result<Vec<KvDefinition>, ConfigError>,
    b: Result<Vec<KvDefinition>, ConfigError>,
    r: Result<Vec<KvDefinition>, ConfigError>,
)
    requires
        first@.len() == 1,
        second@.len() == 1,
        all@.len() == 1,
        first@[0].namespace@ == all@[0].namespace@,
        second@[0].namespace@ == all@[0].namespace@,
        all@[0].entries@ == first@[0].entries@ + second@[0].entries@,
        call_ensures(defs::validate_persisted, (first,), a),
        call_ensures(defs::validate_persisted, (second,), b),
        call_ensures(defs::validate_persisted, (all,), r),
    ensures
        r is Ok <==> a is Ok && b is Ok,
        r is Ok ==> r->Ok_0.deep_view() == a->Ok_0.deep_view() + b->Ok_0.deep_view(),
{
    one_table(first.deep_view());
    one_table(second.deep_view());
    one_table(all.deep_view());
    let x = first@[0].entries.deep_view();
    let y = second@[0].entries.deep_view();
    assert(first.deep_view()[0] == first@[0].deep_view());
    assert(second.deep_view()[0] == second@[0].deep_view());
    assert(all.deep_view()[0] == all@[0].deep_view());
    assert(all@[0].entries.deep_view() =~= x + y);
    kept_entries_add_up(all@[0].namespace@, x, y);
}

proof fn one_table(tables: Seq<(Seq<char>, Seq<(Seq<char>, EntryView)>)>)
    requires
        tables.len() == 1,
    ensures
        defs::persisted_all(tables) == defs::persisted_table(tables[0]),
{
    assert(defs::persisted_all(tables.drop_last()) == Ok::<Seq<DefView>, Seq<char>>(Seq::empty()));
    if let Ok(x) = defs::persisted_table(tables[0]) {
        assert(Seq::<DefView>::empty() + x =~= x);
    }
}

proof fn one_entry(ns: Seq<char>, entries: Seq<(Seq<char>, EntryView)>)
    requires
        entries.len() == 1,
    ensures
        defs::persisted_entries(ns, entries) == match defs::persisted_entry(
            ns,
            entries[0].0,
            entries[0].1,
        ) {
            Ok(d) => Ok::<Seq<DefView>, Seq<char>>(seq![d]),
            Err(e) => Err(e),
        },
{
    assert(defs::persisted_entries(ns, entries.drop_last()) == Ok::<Seq<DefView>, Seq<char>>(
        Seq::empty(),
    ));
    if let Ok(d) = defs::persisted_entry(ns, entries[0].0, entries[0].1) {
        assert(Seq::<DefView>::empty().push(d) =~= seq![d]);
    }
}

/// An entry of a kept file stands for what it would in a user's file, in the
/// namespace of its table: both must be names, and the entry gives no namespace
/// of its own.
pub proof fn kept_entries_take_their_namespace(
    tables: &[PersistTable],
    key: &str,
    one: Result<KvDefinition, ConfigError>,
    r: Result<Vec<KvDefinition>, ConfigError>,
)
    requires
        tables@.len() == 1,
        tables@[0].entries@.len() == 1,
        key@ == tables@[0].entries@[0].name@,
        call_ensures(DefEntry::validate, (&tables@[0].entries@[0].entry, key), one),
        call_ensures(defs::validate_persisted, (tables,), r),
    ensures
        r is Ok <==> names::is_name(tables@[0].namespace@) && names::is_name(key@)
            && tables@[0].entries@[0].entry.namespace is None && one is Ok,
        r matches Ok(all) ==> {
            let d = all@[0];
            let e = one->Ok_0;
            &&& all@.len() == 1
            &&& d.namespace is Some && d.namespace->0@ == tables@[0].namespace@
            &&& d.name@ == e.name@
            &&& d.soft_ttl_secs == e.soft_ttl_secs
            &&& d.hard_ttl_secs == e.hard_ttl_secs
            &&& d.preload == e.preload
            &&& same_source(d.source, e.source)
            &&& same_meta(d.meta, e.meta)
        },
{
    let ns = tables@[0].namespace@;
    let entries = tables@[0].entries.deep_view();
    names::names_are_identifiers(ns);
    names::names_are_identifiers(key@);
    one_table(tables.deep_view());
    assert(tables.deep_view()[0] == tables@[0].deep_view());
    assert(entries.len() == 1);
    assert(entries[0] == tables@[0].entries@[0].deep_view());
    one_entry(ns, entries);
    if let Ok(all) = r {
        assert(all.deep_view().len() == all@.len());
        assert(all.deep_view()[0] == all@[0]@);
        let d = all@[0];
        let e = one->Ok_0;
        sources_by_their_views(d.source, e.source);
        types_by_their_views(d.meta, e.meta);
    }
}

/// What was written reads back: one table for each definition, and the tables
/// stand for the same definitions.
pub proof fn a_written_file_reads_back(all: &[KvDefinition], r: String)
    requires
        forall|i: int| 0 <= i < all@.len() ==> read_back::keepable((#[trigger] all@[i])@),
        forall|i: int, j: int|
            0 <= i < j < all@.len() ==> defs::file_key((#[trigger] all@[i])@) != defs::file_key(
                (#[trigger] all@[j])@,
            ),
        call_ensures(defs::serialize_definitions, (all,), r),
    ensures
        read_back::read_document(r@) is Some,
        ({
            let tables = read_back::read_document(r@)->0;
            let again = defs::persisted_all(read_back::grouped(tables));
            &&& tables.len() == all@.len()
            &&& again is Ok
            &&& again->Ok_0.len() == all@.len()
            &&& forall|i: int|
                0 <= i < all@.len() ==> again->Ok_0.contains(
                    read_back::pinned((#[trigger] all@[i])@),
                )
        }),
{
    broadcast use vstd::seq_lib::group_to_multiset_ensures;

    let views = all.deep_view();
    assert(views.len() == all@.len());
    assert forall|i: int| 0 <= i < views.len() implies read_back::keepable(#[trigger] views[i]) by {
        assert(views[i] == all@[i]@);
    }
    assert forall|i: int, j: int| 0 <= i < j < views.len() implies defs::file_key(
        #[trigger] views[i],
    ) != defs::file_key(#[trigger] views[j]) by {
        assert(views[i] == all@[i]@);
        assert(views[j] == all@[j]@);
    }
    read_back::persisted_file_reads_back(views);
    defs::key_order_is_a_permutation(views);
    let sorted = defs::in_key_order(views);
    let back = sorted.map_values(|d: DefView| read_back::pinned(d));
    assert forall|i: int| 0 <= i < all@.len() implies back.contains(
        read_back::pinned((#[trigger] all@[i])@),
    ) by {
        assert(views[i] == all@[i]@);
        assert(views.to_multiset().count(views[i]) > 0);
        assert(sorted.contains(views[i]));
        let k = choose|k: int| 0 <= k < sorted.len() && sorted[k] == views[i];
        assert(back[k] == read_back::pinned(views[i]));
    }
}

/// An argument vector reads back as it was written.
pub proof fn written_arguments_read_back(items: &[String], r: String)
    requires
        call_ensures(defs::toml_string_array, (items,), r),
    ensures
        read_back::read_array(r@) == Some(items.deep_view()),
{
    read_back::argv_reads_back(items.deep_view());
}

/// What is kept of a key: its definition by a command, under its own name.
pub open spec fn is_kept_as(key: StoreKey, d: DefView) -> bool {
    key.definition matches Some(def) && def.command is Some && names::is_name(d.name)
        && d.namespace is Some && names::is_name(d.namespace->0) && key.key@ == d.namespace->0
        + seq!['/'] + d.name && d.soft_ttl_secs == def.soft_ttl_secs && d.hard_ttl_secs
        == def.hard_ttl_secs && !d.preload && d.meta.type_label == def.meta.type_label.deep_view()
        && d.meta.params == config::param_texts(def.meta.params@) && d.source
        == (config::SourceView::Command {
        argv: def.command->0.deep_view(),
        cwd: None,
        env: Seq::empty(),
    })
}

proof fn kept_of_a_key(key: StoreKey, ns: Seq<char>, name: Seq<char>)
    ensures
        defs::persistable(key) matches Some(d) ==> is_kept_as(key, d),
        key.definition is Some && key.definition->0.command is Some && names::is_name(ns)
            && names::is_name(name) && key.key@ == ns + seq!['/'] + name ==> defs::persistable(
            key,
        ) is Some,
{
    reveal_strlit("/");
    assert("/"@ =~= seq!['/']);
    if names::is_name(ns) && names::is_name(name) && key.key@ == ns + seq!['/'] + name {
        names::names_are_identifiers(ns);
        names::names_are_identifiers(name);
        namespace::composing_splits_back(ns, name);
    }
    if let Some((n, k)) = namespace::composed_parts(key.key@) {
        let s = key.key@;
        let (a, b) = choose|a: Seq<char>, b: Seq<char>| namespace::is_composed_of(s, a, b);
        assert(namespace::is_composed_of(s, (a, b).0, (a, b).1));
        assert(namespace::is_composed_of(s, n, k));
        names::names_are_identifiers(n);
        names::names_are_identifiers(k);
    }
}

proof fn kept_of_the_keys(keys: Seq<StoreKey>)
    ensures
        forall|i: int|
            0 <= i < keys.len() && defs::persistable(#[trigger] keys[i]) is Some
                ==> defs::persistable_all(keys).contains(defs::persistable(keys[i])->0),
        forall|j: int|
            0 <= j < defs::persistable_all(keys).len() ==> exists|i: int|
                0 <= i < keys.len() && defs::persistable(#[trigger] keys[i]) == Some(
                    #[trigger] defs::persistable_all(keys)[j],
                ),
        defs::persistable_all(keys).len() <= keys.len(),
    decreases keys.len(),
{
    if keys.len() > 0 {
        let before = keys.drop_last();
        kept_of_the_keys(before);
        let had = defs::persistable_all(before);
        let all = defs::persistable_all(keys);
        assert forall|i: int|
            0 <= i < keys.len() && defs::persistable(#[trigger] keys[i]) is Some implies all.contains(
            defs::persistable(keys[i])->0,
        ) by {
            if i < before.len() {
                assert(before[i] == keys[i]);
                let d = defs::persistable(keys[i])->0;
                let j = choose|j: int| 0 <= j < had.len() && had[j] == d;
                assert(all[j] == d);
            } else {
                assert(all[all.len() - 1] == defs::persistable(keys[i])->0);
            }
        }
        assert forall|j: int| 0 <= j < all.len() implies exists|i: int|
            0 <= i < keys.len() && defs::persistable(#[trigger] keys[i]) == Some(
                #[trigger] all[j],
            ) by {
            if j < had.len() {
                assert(all[j] == had[j]);
                let i = choose|i: int|
                    0 <= i < before.len() && defs::persistable(#[trigger] before[i]) == Some(had[j]);
                assert(before[i] == keys[i]);
            } else {
                assert(defs::persistable(keys[keys.len() - 1]) == Some(all[j]));
            }
        }
    }
}

/// Every key of the store that has a definition by a command is kept, and
/// nothing else, in the order of the keys.
pub proof fn what_is_kept_of_the_store(
    keys: &[StoreKey],
    i: int,
    ns: Seq<char>,
    name: Seq<char>,
    r: Vec<KvDefinition>,
)
    requires
        call_ensures(defs::snapshot_definitions, (keys,), r),
        0 <= i < keys@.len(),
    ensures
        keys@[i].definition is Some && keys@[i].definition->0.command is Some && names::is_name(ns)
            && names::is_name(name) && keys@[i].key@ == ns + seq!['/'] + name ==> exists|j: int|
            0 <= j < r@.len() && is_kept_as(keys@[i], (#[trigger] r@[j])@),
        forall|j: int|
            0 <= j < r@.len() ==> exists|k: int|
                0 <= k < keys@.len() && is_kept_as(
                    #[trigger] keys@[k],
                    (#[trigger] r@[j])@,
                ),
        r@.len() <= keys@.len(),
        forall|j: int, k: int|
            0 <= j < k < r@.len() ==> text::text_le(
                defs::file_key((#[trigger] r@[j])@),
                defs::file_key((#[trigger] r@[k])@),
            ),
{
    broadcast use vstd::seq_lib::group_to_multiset_ensures;

    let found = defs::persistable_all(keys@);
    let sorted = defs::in_key_order(found);
    kept_of_the_keys(keys@);
    kept_of_a_key(keys@[i], ns, name);
    defs::key_order_is_a_permutation(found);
    assert(r.deep_view().len() == r@.len());
    assert forall|j: int| 0 <= j < r@.len() implies sorted[j] == (#[trigger] r@[j])@ by {
        assert(r.deep_view()[j] == r@[j]@);
    }
    if defs::persistable(keys@[i]) is Some {
        let d = defs::persistable(keys@[i])->0;
        assert(found.contains(d));
        assert(found.to_multiset().count(d) > 0);
        assert(sorted.contains(d));
        let j = choose|j: int| 0 <= j < sorted.len() && sorted[j] == d;
        assert(is_kept_as(keys@[i], r@[j]@));
    }
    assert forall|j: int| 0 <= j < r@.len() implies exists|k: int|
        0 <= k < keys@.len() && is_kept_as(#[trigger] keys@[k], (#[trigger] r@[j])@) by {
        let d = sorted[j];
        assert(sorted.to_multiset().count(d) > 0);
        assert(found.contains(d));
        let p = choose|p: int| 0 <= p < found.len() && found[p] == d;
        let k = choose|k: int|
            0 <= k < keys@.len() && defs::persistable(#[trigger] keys@[k]) == Some(found[p]);
        kept_of_a_key(keys@[k], ns, name);
        assert(is_kept_as(keys@[k], r@[j]@));
    }
    assert forall|j: int, k: int| 0 <= j < k < r@.len() implies text::text_le(
        defs::file_key((#[trigger] r@[j])@),
        defs::file_key((#[trigger] r@[k])@),
    ) by {
        assert(sorted[j] == r@[j]@ && sorted[k] == r@[k]@);
    }
}

/// Where the definitions are kept: under the state directory where one is set,
/// else under the home directory.
pub proof fn where_definitions_are_kept(state_home: Option<&str>, home: Option<&str>, r: String)
    requires
        call_ensures(defs::definitions_state_path, (state_home, home), r),
    ensures
        state_home matches Some(d) ==> d@.len() > 0 && d@.last() != '/' ==> r@ == d@
            + "/cache-warden/definitions.toml"@,
        state_home matches Some(d) ==> d@.len() > 0 && d@.last() == '/' ==> r@ == d@
            + "cache-warden/definitions.toml"@,
        (state_home is None || state_home->0@.len() == 0) && home is Some && home->0@.len() > 0
            && home->0@.last() != '/' ==> r@ == home->0@
            + "/.local/state/cache-warden/definitions.toml"@,
        (state_home is None || state_home->0@.len() == 0) && (home is None || home->0@.len() == 0)
            ==> r@ == ".local/state/cache-warden/definitions.toml"@,
{
    reveal_strlit("/");
    reveal_strlit("cache-warden");
    reveal_strlit("definitions.toml");
    reveal_strlit(".local/state");
    reveal_strlit("/cache-warden/definitions.toml");
    reveal_strlit("cache-warden/definitions.toml");
    reveal_strlit("/.local/state/cache-warden/definitions.toml");
    reveal_strlit(".local/state/cache-warden/definitions.toml");
    let own = "cache-warden"@;
    let file = "definitions.toml"@;
    assert(own.len() == 12 && own[0] == 'c' && own.last() == 'n');
    assert(file.len() == 16 && file[0] == 'd');
    assert(".local/state"@.len() == 12 && ".local/state"@[0] == '.' && ".local/state"@.last()
        == 'e');
    assert("/cache-warden/definitions.toml"@ =~= "/"@ + own + "/"@ + file);
    assert("cache-warden/definitions.toml"@ =~= own + "/"@ + file);
    assert(".local/state/cache-warden/definitions.toml"@ =~= ".local/state"@ + "/"@ + own + "/"@
        + file);
    assert("/.local/state/cache-warden/definitions.toml"@ =~= "/"@ + ".local/state"@ + "/"@ + own
        + "/"@ + file);
    if let Some(d) = state_home {
        if d@.len() > 0 && d@.last() != '/' {
            assert(r@ =~= d@ + ("/"@ + own + "/"@ + file));
        } else if d@.len() > 0 {
            assert(r@ =~= d@ + (own + "/"@ + file));
        }
    }
    if let Some(h) = home {
        if (state_home is None || state_home->0@.len() == 0) && h@.len() > 0 && h@.last() != '/' {
            assert(r@ =~= h@ + ("/"@ + ".local/state"@ + "/"@ + own + "/"@ + file));
        }
    }
}

/// What stands between the brackets and quotes of a written vector of one text.
pub open spec fn between(r: Seq<char>, inner: Seq<char>) -> bool {
    r == seq!['[', '"'] + inner + seq!['"', ']']
}

proof fn one_is_quoted(items: &[String], r: String)
    requires
        items@.len() == 1,
        call_ensures(defs::toml_string_array, (items,), r),
    ensures
        between(r@, defs::toml_escaped(items@[0]@)),
{
    reveal_strlit("[");
    reveal_strlit("]");
    reveal_strlit("\"");
    let texts = items.deep_view();
    let quoted = texts.map_values(|s: Seq<char>| defs::toml_quoted(s));
    assert(texts[0] == items@[0]@);
    assert(quoted =~= seq![defs::toml_quoted(items@[0]@)]);
    assert(quoted.drop_last() =~= Seq::<Seq<char>>::empty());
    assert(text::joined(quoted, ", "@) =~= quoted[0]);
    assert(r@ =~= seq!['[', '"'] + defs::toml_escaped(items@[0]@) + seq!['"', ']']);
}

proof fn escapes_add_up(a: Seq<char>, b: Seq<char>)
    ensures
        defs::toml_escaped(a + b) == defs::toml_escaped(a) + defs::toml_escaped(b),
    decreases b.len(),
{
    if b.len() == 0 {
        assert(a + b =~= a);
        assert(defs::toml_escaped(a) + Seq::<char>::empty() =~= defs::toml_escaped(a));
    } else {
        escapes_add_up(a, b.drop_last());
        assert((a + b).drop_last() =~= a + b.drop_last());
        assert((a + b).last() == b.last());
        assert(defs::toml_escaped(a + b) =~= defs::toml_escaped(a) + defs::toml_escaped(b));
    }
}

/// A text is written character by character.
pub proof fn texts_are_written_piece_by_piece(
    a: &[String],
    b: &[String],
    whole: &[String],
    x: Seq<char>,
    y: Seq<char>,
    r: String,
    s: String,
    t: String,
)
    requires
        a@.len() == 1,
        b@.len() == 1,
        whole@.len() == 1,
        whole@[0]@ == a@[0]@ + b@[0]@,
        call_ensures(defs::toml_string_array, (a,), r),
        call_ensures(defs::toml_string_array, (b,), s),
        call_ensures(defs::toml_string_array, (whole,), t),
        between(r@, x),
        between(s@, y),
    ensures
        between(t@, x + y),
{
    one_is_quoted(a, r);
    one_is_quoted(b, s);
    one_is_quoted(whole, t);
    escapes_add_up(a@[0]@, b@[0]@);
    between_is_one(r@, x, defs::toml_escaped(a@[0]@));
    between_is_one(s@, y, defs::toml_escaped(b@[0]@));
}

proof fn between_is_one(r: Seq<char>, x: Seq<char>, y: Seq<char>)
    requires
        between(r, x),
        between(r, y),
    ensures
        x == y,
{
    assert(x =~= r.subrange(2, r.len() - 2));
    assert(y =~= r.subrange(2, r.len() - 2));
}

/// The number that a hexadecimal digit stands for.
pub open spec fn sixteenth(c: char) -> int {
    if '0' <= c <= '9' {
        c as int - '0' as int
    } else if 'A' <= c <= 'F' {
        c as int - 'A' as int + 10
    } else {
        -1
    }
}

proof fn digits_of_sixteen(n: nat)
    requires
        n < 16,
    ensures
        sixteenth(defs::hex_digit(n)) == n,
{
}

proof fn small_characters(c: char)
    requires
        c < ' ' || c == '\u{7f}',
    ensures
        (c as nat) < 128,
        c as nat == (c as nat / 16) * 16 + c as nat % 16,
        c as nat / 16 < 16,
        c as nat % 16 < 16,
        c as int == c as nat as int,
{
}

/// A quote and a backslash are written behind a backslash, a control character
/// but the tab by its number, and any other character as it is.
pub proof fn how_a_character_is_written(one: &[String], c: char, r: String)
    requires
        one@.len() == 1,
        one@[0]@ == seq![c],
        call_ensures(defs::toml_string_array, (one,), r),
    ensures
        c == '"' || c == '\\' ==> between(r@, seq!['\\', c]),
        (c < ' ' && c != '\t') || c == '\u{7f}' ==> exists|h: char, l: char|
            between(r@, #[trigger] seq!['\\', 'u', '0', '0', h, l]) && sixteenth(h) >= 0
                && sixteenth(l) >= 0 && c as int == 16 * sixteenth(h) + sixteenth(l),
        c != '"' && c != '\\' && !(c < ' ' && c != '\t') && c != '\u{7f}' ==> between(
            r@,
            seq![c],
        ),
{
    one_is_quoted(one, r);
    assert(seq![c].drop_last() =~= Seq::<char>::empty());
    assert(seq![c].last() == c);
    assert(defs::toml_escaped(Seq::<char>::empty()) =~= Seq::<char>::empty());
    assert(defs::toml_escaped(seq![c]) =~= defs::toml_unit(c));
    if (c < ' ' && c != '\t') || c == '\u{7f}' {
        small_characters(c);
        digits_of_sixteen((c as nat / 16) as nat);
        digits_of_sixteen((c as nat % 16) as nat);
        let h = defs::hex_digit(c as nat / 16);
        let l = defs::hex_digit(c as nat % 16);
        assert(between(r@, seq!['\\', 'u', '0', '0', h, l]));
    }
}

/// A written vector gives its texts in order, with a comma and a space between.
pub proof fn vectors_are_written_in_order(
    items: &[String],
    last: &[String],
    all: &[String],
    r: String,
    s: String,
    t: String,
)
    requires
        items@.len() > 0,
        last@.len() == 1,
        all@ == items@ + last@,
        call_ensures(defs::toml_string_array, (items,), r),
        call_ensures(defs::toml_string_array, (last,), s),
        call_ensures(defs::toml_string_array, (all,), t),
    ensures
        t@ == r@.drop_last() + seq![',', ' '] + s@.skip(1),
{
    reveal_strlit("[");
    reveal_strlit("]");
    reveal_strlit(", ");
    assert(", "@ =~= seq![',', ' ']);
    let quote = |s: Seq<char>| defs::toml_quoted(s);
    let a = items.deep_view().map_values(quote);
    let b = last.deep_view().map_values(quote);
    let c = all.deep_view().map_values(quote);
    assert(c =~= a + b);
    assert(c.drop_last() =~= a);
    assert(b.drop_last() =~= Seq::<Seq<char>>::empty());
    assert(c.last() == b.last());
    assert(text::joined(b, ", "@) =~= b.last());
    assert(text::joined(c, ", "@) =~= text::joined(a, ", "@) + ", "@ + b.last());
    assert(t@ =~= r@.drop_last() + seq![',', ' '] + s@.skip(1));
}

/// One definition is written as a table headed by its key, with its command, its
/// times to live and its type.
pub proof fn how_a_definition_is_written(
    all: &[KvDefinition],
    argv: Vec<String>,
    command: &[String],
    array: String,
    soft: String,
    hard: String,
    r: String,
)
    requires
        all@.len() == 1,
        call_ensures(SourceSpecWire::argv, (&all@[0].source,), argv),
        command@ == argv@,
        call_ensures(defs::toml_string_array, (command,), array),
        all@[0].soft_ttl_secs matches Some(n) ==> call_ensures(text::number_text, (n,), soft),
        all@[0].hard_ttl_secs matches Some(n) ==> call_ensures(text::number_text, (n,), hard),
        all@[0].meta.type_label is None,
        call_ensures(defs::serialize_definitions, (all,), r),
    ensures
        r@ == "[kv."@ + (match all@[0].namespace {
            Some(ns) => ns@,
            None => "default"@,
        }) + "."@ + all@[0].name@ + "]\ncommand = "@ + array@ + "\n"@ + (
        if all@[0].soft_ttl_secs is Some {
            "soft-ttl = \""@ + soft@ + "s\"\n"@
        } else {
            Seq::empty()
        }) + (if all@[0].hard_ttl_secs is Some {
            "hard-ttl = \""@ + hard@ + "s\"\n"@
        } else {
            Seq::empty()
        }),
{
    reveal_strlit("]\ncommand = ");
    reveal_strlit("]\n");
    reveal_strlit("command = ");
    reveal_strlit("soft-ttl = \"");
    reveal_strlit("hard-ttl = \"");
    reveal_strlit("soft-ttl");
    reveal_strlit("hard-ttl");
    reveal_strlit(" = \"");
    assert("]\ncommand = "@ =~= "]\n"@ + "command = "@);
    assert("soft-ttl = \""@ =~= "soft-ttl"@ + " = \""@);
    assert("hard-ttl = \""@ =~= "hard-ttl"@ + " = \""@);
    assert(command.deep_view() =~= argv.deep_view());
    let d = all@[0]@;
    one_definition_is_its_table(all);
    assert(all@[0].meta@.type_label is None);
    assert(r@ =~= defs::definition_table(d));
}

proof fn one_definition_is_its_table(all: &[KvDefinition])
    requires
        all@.len() == 1,
    ensures
        defs::definitions_file(all.deep_view()) == defs::definition_table(all@[0]@),
{
    let views = all.deep_view();
    assert(views[0] == all@[0]@);
    assert(views.drop_last() =~= Seq::<DefView>::empty());
    assert(defs::in_key_order(views.drop_last()) =~= Seq::<DefView>::empty());
    let sorted = defs::in_key_order(views);
    assert(sorted =~= seq![views[0]]);
    let tables = sorted.map_values(|d: DefView| defs::definition_table(d));
    assert(tables =~= seq![defs::definition_table(views[0])]);
    assert(tables.drop_last() =~= Seq::<Seq<char>>::empty());
    assert(text::joined(tables, "\n"@) =~= tables[0]);
}

/// A definition whose key stands behind those of all others is written behind
/// them, after an empty line.
pub proof fn definitions_are_written_one_by_one(
    before: &[KvDefinition],
    last: &[KvDefinition],
    all: &[KvDefinition],
    r: String,
    s: String,
    t: String,
)
    requires
        before@.len() > 0,
        last@.len() == 1,
        all@ == before@ + last@,
        forall|i: int|
            0 <= i < before@.len() ==> !text::text_lt(
                defs::file_key(last@[0]@),
                defs::file_key((#[trigger] before@[i])@),
            ),
        call_ensures(defs::serialize_definitions, (before,), r),
        call_ensures(defs::serialize_definitions, (last,), s),
        call_ensures(defs::serialize_definitions, (all,), t),
    ensures
        t@ == r@ + seq!['\n'] + s@,
{
    broadcast use vstd::seq_lib::group_to_multiset_ensures;

    reveal_strlit("\n");
    assert("\n"@ =~= seq!['\n']);
    let a = before.deep_view();
    let b = all.deep_view();
    let d = last@[0]@;
    assert(last.deep_view()[0] == d);
    one_definition_is_its_table(last);
    assert(b =~= a.push(d));
    assert(b.drop_last() =~= a);
    let sorted = defs::in_key_order(a);
    defs::key_order_is_a_permutation(a);
    assert(sorted.len() > 0);
    let e = sorted.last();
    assert(sorted[sorted.len() - 1] == e);
    assert(sorted.to_multiset().count(e) > 0);
    assert(a.contains(e));
    let i = choose|i: int| 0 <= i < a.len() && a[i] == e;
    assert(a[i] == before@[i]@);
    assert(defs::in_key_order(b) == sorted.push(d));
    let table = |x: DefView| defs::definition_table(x);
    assert(sorted.push(d).map_values(table) =~= sorted.map_values(table).push(
        defs::definition_table(d),
    ));
    let tables = sorted.map_values(table);
    assert(tables.push(defs::definition_table(d)).drop_last() =~= tables);
    assert(t@ =~= r@ + seq!['\n'] + s@);
}

/// The type of a value is written behind the rest of its definition, with its
/// parameters.
pub proof fn how_a_type_is_written(
    plain: &[KvDefinition],
    typed: &[KvDefinition],
    params: &[(String, String)],
    names: (&str, &str, &str),
    found: (Option<String>, Option<String>, Option<String>),
    r: String,
    s: String,
)
    requires
        plain@.len() == 1,
        typed@.len() == 1,
        plain@[0].name@ == typed@[0].name@,
        plain@[0].namespace.deep_view() == typed@[0].namespace.deep_view(),
        plain@[0].source == typed@[0].source,
        plain@[0].soft_ttl_secs == typed@[0].soft_ttl_secs,
        plain@[0].hard_ttl_secs == typed@[0].hard_ttl_secs,
        plain@[0].meta.type_label is None,
        typed@[0].meta.type_label is Some,
        params@ == typed@[0].meta.params@,
        names.0@ == "digits"@,
        names.1@ == "period"@,
        names.2@ == "algorithm"@,
        call_ensures(config::find_param, (params, names.0), found.0),
        call_ensures(config::find_param, (params, names.1), found.1),
        call_ensures(config::find_param, (params, names.2), found.2),
        call_ensures(defs::serialize_definitions, (plain,), r),
        call_ensures(defs::serialize_definitions, (typed,), s),
    ensures
        s@ == r@ + "type = \""@ + typed@[0].meta.type_label->0@ + "\"\n"@ + (match found.0 {
            Some(d) => "otp-digits = "@ + d@ + "\n"@,
            None => Seq::empty(),
        }) + (match found.1 {
            Some(p) => "otp-period = "@ + p@ + "\n"@,
            None => Seq::empty(),
        }) + (match found.2 {
            Some(a) => "otp-algorithm = \""@ + a@ + "\"\n"@,
            None => Seq::empty(),
        }),
{
    one_definition_is_its_table(plain);
    one_definition_is_its_table(typed);
    let a = plain@[0]@;
    let b = typed@[0]@;
    assert(b.meta.params == config::param_texts(params@));
    let none = defs::definition_table(a);
    let lines = defs::meta_lines(b.meta);
    assert(defs::meta_lines(a.meta) == Seq::<char>::empty());
    assert(defs::definition_table(b) == none + lines) by {
        let lead = "[kv."@ + read_back::file_namespace(a) + "."@ + a.name + "]\n"@ + "command = "@
            + defs::toml_array(config::source_argv(a.source)) + "\n"@ + defs::ttl_line(
            "soft-ttl"@,
            a.soft_ttl_secs,
        ) + defs::ttl_line("hard-ttl"@, a.hard_ttl_secs);
        assert(none == lead + Seq::<char>::empty());
        assert(none =~= lead);
        assert(defs::definition_table(b) == lead + lines);
    }
    let digits = match found.0 {
        Some(d) => "otp-digits = "@ + d@ + "\n"@,
        None => Seq::empty(),
    };
    let period = match found.1 {
        Some(p) => "otp-period = "@ + p@ + "\n"@,
        None => Seq::empty(),
    };
    let algorithm = match found.2 {
        Some(h) => "otp-algorithm = \""@ + h@ + "\"\n"@,
        None => Seq::empty(),
    };
    let label = typed@[0].meta.type_label->0@;
    assert(lines == "type = \""@ + label + "\"\n"@ + digits + period + algorithm);
    sums_regroup(r@, "type = \""@, label, "\"\n"@, digits, period, algorithm);
}

proof fn sums_regroup(
    r: Seq<char>,
    a: Seq<char>,
    b: Seq<char>,
    c: Seq<char>,
    d: Seq<char>,
    e: Seq<char>,
    f: Seq<char>,
)
    ensures
        r + (a + b + c + d + e + f) == r + a + b + c + d + e + f,
{
    assert(r + (a + b + c + d + e + f) =~= r + a + b + c + d + e + f);
}

/// What has no place in a file is told of first, and in this order; then that
/// there is no command.
pub proof fn why_a_table_is_refused(
    entry: &DefEntry,
    name: &str,
    r: Result<KvDefinition, ConfigError>,
)
    requires
        call_ensures(DefEntry::validate, (entry, name), r),
    ensures
        ({
            let why = r->Err_0.message@;
            let place = "[kv."@ + name@ + "]: "@;
            if entry.has_preload {
                why == place
                    + "`preload` is not allowed in a defs file — it is a config-only startup flag; defs definitions are always lazy"@
            } else if entry.has_value {
                why == place
                    + "inline `value` is not allowed — defs files declare regenerable command definitions only, never literal secrets"@
            } else if entry.has_value_stdin {
                (place + "`value-stdin` is not a defs key"@).is_prefix_of(why)
            } else if entry.has_static {
                why == place
                    + "a `static` source cannot be defined — only `command` entries may be defined"@
            } else if entry.command is None {
                why == place + "a definition entry requires a `command` source"@
            } else if entry.command->0@.len() == 0 {
                why == place + "`command` must not be empty"@
            } else {
                true
            }
        }),
{
    if let Some(argv) = entry.command {
        assert(argv.deep_view().len() == argv@.len());
    }
    let place = "[kv."@ + name@ + "]: "@;
    let lead = "`value-stdin` is not a defs key"@;
    let full =
        "`value-stdin` is not a defs key — pipe literal values in at runtime (`... | cache-warden kv set "@;
    reveal_strlit("`value-stdin` is not a defs key");
    reveal_strlit(
        "`value-stdin` is not a defs key — pipe literal values in at runtime (`... | cache-warden kv set ",
    );
    assert(full.take(lead.len() as int) =~= lead);
    if !entry.has_preload && !entry.has_value && entry.has_value_stdin {
        let why = r->Err_0.message@;
        assert(why == place + (full + name@ + "`)"@));
        assert(why.take((place + lead).len() as int) =~= place + lead);
    }
}

} // verus!
