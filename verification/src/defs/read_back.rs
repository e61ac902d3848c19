//! What was written to the persisted file reads back.
//!
//! The reader here knows the part of TOML that the file is written in: tables
//! `[kv.NS.KEY]`, one field to a line, basic strings, arrays of them, and
//! numbers.

use vstd::prelude::*;

use crate::config;
use crate::config::{DefView, MetaView};
use crate::defs;
use crate::defs::EntryView;
use crate::namespace;
use crate::text;

verus! {

/// The number that a hexadecimal digit stands for.
pub open spec fn hex_value(c: char) -> Option<nat> {
    if '0' <= c <= '9' {
        Some((c as int - '0' as int) as nat)
    } else if 'A' <= c <= 'F' {
        Some((c as int - 'A' as int + 10) as nat)
    } else if 'a' <= c <= 'f' {
        Some((c as int - 'a' as int + 10) as nat)
    } else {
        None
    }
}

/// The character that four hexadecimal digits give, where they give one: no
/// surrogate is a character.
pub open spec fn read_code(a: char, b: char, c: char, d: char) -> Option<char> {
    match (hex_value(a), hex_value(b), hex_value(c), hex_value(d)) {
        (Some(i), Some(j), Some(k), Some(l)) => {
            let code = ((i * 16 + j) * 16 + k) * 16 + l;
            if 0xD800 <= code <= 0xDFFF {
                None
            } else {
                Some(code as char)
            }
        },
        _ => None,
    }
}

/// Reading up to the closing quote of a basic string: what the string holds and
/// what follows the quote. Escaped quotes and backslashes are read, and
/// characters that are given by four hexadecimal digits; no other escape.
pub open spec fn read_quoted(s: Seq<char>) -> Option<(Seq<char>, Seq<char>)>
    decreases s.len(),
{
    if s.len() == 0 {
        None
    } else if s[0] == '"' {
        Some((Seq::empty(), s.skip(1)))
    } else if s[0] == '\\' {
        if s.len() >= 2 && (s[1] == '\\' || s[1] == '"') {
            match read_quoted(s.skip(2)) {
                Some((t, rest)) => Some((seq![s[1]] + t, rest)),
                None => None,
            }
        } else if s.len() >= 6 && s[1] == 'u' {
            match (read_code(s[2], s[3], s[4], s[5]), read_quoted(s.skip(6))) {
                (Some(c), Some((t, rest))) => Some((seq![c] + t, rest)),
                _ => None,
            }
        } else {
            None
        }
    } else if defs::is_toml_control(s[0]) {
        None
    } else {
        match read_quoted(s.skip(1)) {
            Some((t, rest)) => Some((seq![s[0]] + t, rest)),
            None => None,
        }
    }
}

/// Reading a basic string leaves less than there was.
pub proof fn reading_consumes(s: Seq<char>)
    ensures
        read_quoted(s) matches Some((t, rest)) ==> rest.len() < s.len(),
    decreases s.len(),
{
    if s.len() > 0 && s[0] != '"' {
        if s[0] == '\\' {
            if s.len() >= 2 {
                reading_consumes(s.skip(2));
            }
            if s.len() >= 6 {
                reading_consumes(s.skip(6));
            }
        } else {
            reading_consumes(s.skip(1));
        }
    }
}

/// Reading the items of an array of basic strings up to its closing bracket,
/// from the opening quote of an item on.
pub open spec fn read_items(s: Seq<char>) -> Option<Seq<Seq<char>>>
    decreases s.len(),
{
    if s.len() == 0 || s[0] != '"' {
        None
    } else {
        match read_quoted(s.skip(1)) {
            None => None,
            Some((item, rest)) => if rest == "]"@ {
                Some(seq![item])
            } else if rest.len() > 2 && rest[0] == ',' && rest[1] == ' ' {
                proof {
                    reading_consumes(s.skip(1));
                }
                match read_items(rest.skip(2)) {
                    Some(items) => Some(seq![item] + items),
                    None => None,
                }
            } else {
                None
            },
        }
    }
}

/// Reading an array of basic strings.
pub open spec fn read_array(s: Seq<char>) -> Option<Seq<Seq<char>>> {
    if s == "[]"@ {
        Some(Seq::empty())
    } else if s.len() > 0 && s[0] == '[' {
        read_items(s.skip(1))
    } else {
        None
    }
}

proof fn escaping_goes_forward(c: char, t: Seq<char>)
    ensures
        defs::toml_escaped(seq![c] + t) == defs::toml_unit(c) + defs::toml_escaped(t),
    decreases t.len(),
{
    let lead = defs::toml_unit(c);
    let s = seq![c] + t;
    if t.len() == 0 {
        assert(s =~= seq![c]);
        assert(s.drop_last() =~= Seq::<char>::empty());
        assert(defs::toml_escaped(Seq::<char>::empty()) =~= Seq::<char>::empty());
        assert(defs::toml_escaped(s) =~= lead);
        assert(lead + defs::toml_escaped(t) =~= lead);
    } else {
        assert(s.drop_last() =~= seq![c] + t.drop_last());
        assert(s.last() == t.last());
        escaping_goes_forward(c, t.drop_last());
        assert(defs::toml_escaped(s) =~= lead + defs::toml_escaped(t));
    }
}

proof fn control_code_reads_back(c: char)
    requires
        defs::is_toml_control(c),
    ensures
        read_code('0', '0', defs::hex_digit(c as nat / 16), defs::hex_digit(c as nat % 16)) == Some(
            c,
        ),
{
    defs::control_codes_are_small(c);
    let high = c as nat / 16;
    let low = c as nat % 16;
    assert(high < 16 && low < 16 && high * 16 + low == c as nat);
    assert(hex_value(defs::hex_digit(high)) == Some(high));
    assert(hex_value(defs::hex_digit(low)) == Some(low));
}

proof fn quoted_reads_back(t: Seq<char>, rest: Seq<char>)
    ensures
        read_quoted(defs::toml_escaped(t) + seq!['"'] + rest) == Some((t, rest)),
    decreases t.len(),
{
    let s = defs::toml_escaped(t) + seq!['"'] + rest;
    if t.len() == 0 {
        assert(s[0] == '"');
        assert(s.skip(1) =~= rest);
        assert(t =~= Seq::<char>::empty());
    } else {
        let c = t[0];
        let tail = t.skip(1);
        assert(t =~= seq![c] + tail);
        escaping_goes_forward(c, tail);
        quoted_reads_back(tail, rest);
        let after = defs::toml_escaped(tail) + seq!['"'] + rest;
        if c == '\\' || c == '"' {
            assert(s =~= seq!['\\', c] + after);
            assert(s[0] == '\\');
            assert(s[1] == c);
            assert(s.skip(2) =~= after);
        } else if defs::is_toml_control(c) {
            control_code_reads_back(c);
            assert(s =~= defs::toml_unit(c) + after);
            assert(s[0] == '\\' && s[1] == 'u' && s[2] == '0' && s[3] == '0');
            assert(s[4] == defs::hex_digit(c as nat / 16) && s[5] == defs::hex_digit(
                c as nat % 16,
            ));
            assert(s.skip(6) =~= after);
        } else {
            assert(s =~= seq![c] + after);
            assert(s[0] == c);
            assert(s.skip(1) =~= after);
        }
    }
}

proof fn joining_goes_forward(first: Seq<char>, rest: Seq<Seq<char>>, sep: Seq<char>)
    requires
        rest.len() > 0,
    ensures
        text::joined(seq![first] + rest, sep) == first + sep + text::joined(rest, sep),
    decreases rest.len(),
{
    let all = seq![first] + rest;
    assert(all.last() == rest.last());
    assert(all.drop_last() =~= seq![first] + rest.drop_last());
    if rest.len() == 1 {
        assert(all.drop_last() =~= seq![first]);
        assert(text::joined(seq![first], sep) == first);
        assert(text::joined(rest, sep) == rest[0]);
    } else {
        joining_goes_forward(first, rest.drop_last(), sep);
        assert(text::joined(all, sep) =~= first + sep + text::joined(rest, sep));
    }
}

proof fn items_read_back(items: Seq<Seq<char>>)
    requires
        items.len() > 0,
    ensures
        read_items(
            text::joined(items.map_values(|s: Seq<char>| defs::toml_quoted(s)), ", "@) + "]"@,
        ) == Some(items),
    decreases items.len(),
{
    reveal_strlit("\"");
    reveal_strlit("]");
    reveal_strlit(", ");
    let quoted = items.map_values(|s: Seq<char>| defs::toml_quoted(s));
    let item = items[0];
    let s = text::joined(quoted, ", "@) + "]"@;
    if items.len() == 1 {
        assert(text::joined(quoted, ", "@) == defs::toml_quoted(item));
        assert(s =~= seq!['"'] + (defs::toml_escaped(item) + seq!['"'] + "]"@));
        assert(s.skip(1) =~= defs::toml_escaped(item) + seq!['"'] + "]"@);
        quoted_reads_back(item, "]"@);
        assert(items =~= seq![item]);
    } else {
        let tail = items.skip(1);
        let tail_quoted = tail.map_values(|s: Seq<char>| defs::toml_quoted(s));
        assert(quoted =~= seq![defs::toml_quoted(item)] + tail_quoted);
        joining_goes_forward(defs::toml_quoted(item), tail_quoted, ", "@);
        items_read_back(tail);
        let more = text::joined(tail_quoted, ", "@) + "]"@;
        let rest = ", "@ + more;
        assert(s =~= seq!['"'] + (defs::toml_escaped(item) + seq!['"'] + rest));
        assert(s.skip(1) =~= defs::toml_escaped(item) + seq!['"'] + rest);
        quoted_reads_back(item, rest);
        assert(rest != "]"@) by {
            assert(rest[0] == ',');
        }
        assert(rest.skip(2) =~= more);
        assert(items =~= seq![item] + tail);
    }
}

/// An argument vector written as a TOML array reads back as itself, whatever
/// characters it holds.
pub proof fn argv_reads_back(items: Seq<Seq<char>>)
    ensures
        read_array(defs::toml_array(items)) == Some(items),
{
    reveal_strlit("[");
    reveal_strlit("]");
    reveal_strlit("[]");
    reveal_strlit("\"");
    let quoted = items.map_values(|s: Seq<char>| defs::toml_quoted(s));
    let body = text::joined(quoted, ", "@);
    let s = defs::toml_array(items);
    if items.len() == 0 {
        assert(body =~= Seq::<char>::empty());
        assert(s =~= "[]"@);
        assert(items =~= Seq::<Seq<char>>::empty());
    } else {
        items_read_back(items);
        assert(s.skip(1) =~= body + "]"@);
        assert(s[0] == '[');
        assert(s[1] == '"') by {
            if items.len() == 1 {
                assert(body == quoted[0]);
            } else {
                assert(quoted =~= seq![quoted[0]] + quoted.skip(1));
                joining_goes_forward(quoted[0], quoted.skip(1), ", "@);
            }
            assert(quoted[0][0] == '"');
        }
        assert(s != "[]"@);
    }
}

/// The fields that the table of a definition gives, as they are read.
pub open spec fn table_entry(def: DefView) -> EntryView {
    EntryView {
        command: Some(config::source_argv(def.source)),
        soft_ttl: match def.soft_ttl_secs {
            Some(n) => Some(text::decimal(n as nat) + "s"@),
            None => None,
        },
        hard_ttl: match def.hard_ttl_secs {
            Some(n) => Some(text::decimal(n as nat) + "s"@),
            None => None,
        },
        value_type: def.meta.type_label,
        otp_digits: match config::param_value(def.meta.params, "digits"@) {
            Some(d) => Some(text::digits_value(d) as u32),
            None => None,
        },
        otp_period: match config::param_value(def.meta.params, "period"@) {
            Some(p) => Some(text::digits_value(p) as u64),
            None => None,
        },
        otp_algorithm: config::param_value(def.meta.params, "algorithm"@),
        namespace: None,
        has_preload: false,
        has_value: false,
        has_value_stdin: false,
        has_static: false,
    }
}

/// A value type that an entry can declare.
pub open spec fn declarable(name: Seq<char>, meta: MetaView) -> bool {
    exists|digits: Option<u32>, period: Option<u64>, algorithm: Option<Seq<char>>|
        #[trigger] config::kv_meta(name, meta.type_label, digits, period, algorithm) == Ok::<
            MetaView,
            Seq<char>,
        >(meta)
}

proof fn lowering_is_idempotent(s: Seq<char>)
    ensures
        text::lowered(text::lowered(s)) == text::lowered(s),
{
    assert(text::lowered(text::lowered(s)) =~= text::lowered(s));
}

proof fn declared_params_read_back(
    a: Option<Seq<char>>,
    d: Option<Seq<char>>,
    p: Option<Seq<char>>,
)
    ensures
        ({
            let params = config::optional_param("algorithm"@, a) + config::optional_param(
                "digits"@,
                d,
            ) + config::optional_param("period"@, p);
            &&& config::param_value(params, "algorithm"@) == a
            &&& config::param_value(params, "digits"@) == d
            &&& config::param_value(params, "period"@) == p
        }),
{
    reveal_strlit("algorithm");
    reveal_strlit("digits");
    reveal_strlit("period");
    assert("algorithm"@[0] == 'a' && "digits"@[0] == 'd' && "period"@[0] == 'p');
    let pa = config::optional_param("algorithm"@, a);
    let pd = config::optional_param("digits"@, d);
    let pp = config::optional_param("period"@, p);
    let params = pa + pd + pp;
    if a is Some {
        assert(params[0] == ("algorithm"@, a->0));
        assert(params.skip(1) =~= pd + pp);
    } else {
        assert(params =~= pd + pp);
    }
    let rest = pd + pp;
    if d is Some {
        assert(rest[0] == ("digits"@, d->0));
        assert(rest.skip(1) =~= pp);
    } else {
        assert(rest =~= pp);
    }
    let nothing = Seq::<(Seq<char>, Seq<char>)>::empty();
    assert(config::param_value(nothing, "digits"@) is None);
    assert(config::param_value(nothing, "algorithm"@) is None);
    if p is Some {
        assert(pp[0] == ("period"@, p->0));
        assert(pp.skip(1) =~= nothing);
    }
    assert(config::param_value(pp, "period"@) == p);
    assert(config::param_value(pp, "digits"@) is None);
    assert(config::param_value(pp, "algorithm"@) is None);
    assert(config::param_value(rest, "period"@) == p);
    assert(config::param_value(rest, "digits"@) == d);
    assert(config::param_value(rest, "algorithm"@) is None);
}

proof fn declared_meta_reads_back(def: DefView)
    requires
        declarable(def.name, def.meta),
    ensures
        ({
            let entry = table_entry(def);
            config::kv_meta(
                def.name,
                entry.value_type,
                entry.otp_digits,
                entry.otp_period,
                entry.otp_algorithm,
            ) == Ok::<MetaView, Seq<char>>(def.meta)
        }),
{
    let (digits, period, algorithm) = choose|
        digits: Option<u32>,
        period: Option<u64>,
        algorithm: Option<Seq<char>>,
    |
        #[trigger] config::kv_meta(def.name, def.meta.type_label, digits, period, algorithm)
            == Ok::<MetaView, Seq<char>>(def.meta);
    let entry = table_entry(def);
    if def.meta.type_label is None {
        assert(def.meta.params =~= Seq::<(Seq<char>, Seq<char>)>::empty());
    } else {
        let a = match algorithm {
            Some(a) => Some(text::lowered(a)),
            None => None,
        };
        let d = match digits {
            Some(d) => Some(text::decimal(d as nat)),
            None => None,
        };
        let p = match period {
            Some(p) => Some(text::decimal(p as nat)),
            None => None,
        };
        declared_params_read_back(a, d, p);
        if digits is Some {
            text::decimal_reads_back(digits->0 as nat);
        }
        if period is Some {
            text::decimal_reads_back(period->0 as nat);
        }
        assert(entry.otp_digits == digits);
        assert(entry.otp_period == period);
        assert(entry.otp_algorithm == a);
        if algorithm is Some {
            lowering_is_idempotent(algorithm->0);
        }
    }
}

/// The definition by the command that its source comes down to.
pub open spec fn as_command(def: DefView) -> DefView {
    DefView { source: config::plain_command(config::source_argv(def.source)), ..def }
}

/// A definition by a plain command is what it comes down to.
pub proof fn plain_commands_come_down_to_themselves(def: DefView, argv: Seq<Seq<char>>)
    requires
        def.source == config::plain_command(argv),
    ensures
        as_command(def) == def,
{
}

/// A definition survives the persisted file: the fields of its table stand for
/// the same definition again, by the command that it comes down to and pinned to
/// the namespace of the table.
pub proof fn persisted_definitions_read_back(def: DefView)
    requires
        def.namespace is Some,
        namespace::is_identifier(def.name),
        config::source_argv(def.source).len() > 0,
        !def.preload,
        declarable(def.name, def.meta),
    ensures
        defs::persisted_entry(def.namespace->0, def.name, table_entry(def)) == Ok::<DefView, Seq<char>>(
            as_command(def),
        ),
{
    declared_meta_reads_back(def);
    if def.soft_ttl_secs is Some {
        config::written_ttl_reads_back(def.soft_ttl_secs->0);
    }
    if def.hard_ttl_secs is Some {
        config::written_ttl_reads_back(def.hard_ttl_secs->0);
    }
    assert(defs::persisted_entry(def.namespace->0, def.name, table_entry(def))->Ok_0 =~= as_command(
        def,
    ));
}

/// What a definition file declares is always something that the persisted file
/// can give back.
pub proof fn validated_definitions_are_declarable(entry: EntryView, name: Seq<char>)
    requires
        defs::validated(entry, name) is Ok,
    ensures
        ({
            let def = defs::validated(entry, name)->Ok_0;
            namespace::is_identifier(def.name) && config::source_argv(def.source).len() > 0 && !def.preload
                && declarable(def.name, def.meta)
        }),
{
    let def = defs::validated(entry, name)->Ok_0;
    assert(def.name == name);
    assert(config::kv_meta(
        name,
        def.meta.type_label,
        entry.otp_digits,
        entry.otp_period,
        entry.otp_algorithm,
    ) == Ok::<MetaView, Seq<char>>(def.meta)) by {
        assert(def.meta.type_label == entry.value_type);
    }
}

/// A table of the file: its namespace, its key and its fields.
pub type Table = (Seq<char>, Seq<char>, EntryView);

/// A table without fields.
pub open spec fn empty_entry() -> EntryView {
    EntryView {
        command: None,
        soft_ttl: None,
        hard_ttl: None,
        value_type: None,
        otp_digits: None,
        otp_period: None,
        otp_algorithm: None,
        namespace: None,
        has_preload: false,
        has_value: false,
        has_value_stdin: false,
        has_static: false,
    }
}

/// Whether a line starts with `lead`.
pub open spec fn has_lead(line: Seq<char>, lead: Seq<char>) -> bool {
    lead.len() <= line.len() && line.take(lead.len() as int) == lead
}

/// Reading a basic string that fills `v`.
pub open spec fn read_text(v: Seq<char>) -> Option<Seq<char>> {
    if v.len() > 0 && v[0] == '"' {
        match read_quoted(v.skip(1)) {
            Some((t, rest)) => if rest.len() == 0 {
                Some(t)
            } else {
                None
            },
            None => None,
        }
    } else {
        None
    }
}

/// Reading a line as a field that the table does not have yet.
pub open spec fn read_field(entry: EntryView, line: Seq<char>) -> Option<EntryView> {
    if has_lead(line, "command = "@) {
        match (entry.command, read_array(line.skip("command = "@.len() as int))) {
            (None, Some(items)) => Some(EntryView { command: Some(items), ..entry }),
            _ => None,
        }
    } else if has_lead(line, "soft-ttl = "@) {
        match (entry.soft_ttl, read_text(line.skip("soft-ttl = "@.len() as int))) {
            (None, Some(t)) => Some(EntryView { soft_ttl: Some(t), ..entry }),
            _ => None,
        }
    } else if has_lead(line, "hard-ttl = "@) {
        match (entry.hard_ttl, read_text(line.skip("hard-ttl = "@.len() as int))) {
            (None, Some(t)) => Some(EntryView { hard_ttl: Some(t), ..entry }),
            _ => None,
        }
    } else if has_lead(line, "type = "@) {
        match (entry.value_type, read_text(line.skip("type = "@.len() as int))) {
            (None, Some(t)) => Some(EntryView { value_type: Some(t), ..entry }),
            _ => None,
        }
    } else if has_lead(line, "otp-digits = "@) {
        match (entry.otp_digits, text::parsed_digits(line.skip("otp-digits = "@.len() as int))) {
            (None, Some(n)) => if n <= u32::MAX {
                Some(EntryView { otp_digits: Some(n as u32), ..entry })
            } else {
                None
            },
            _ => None,
        }
    } else if has_lead(line, "otp-period = "@) {
        match (entry.otp_period, text::parsed_digits(line.skip("otp-period = "@.len() as int))) {
            (None, Some(n)) => Some(EntryView { otp_period: Some(n), ..entry }),
            _ => None,
        }
    } else if has_lead(line, "otp-algorithm = "@) {
        match (entry.otp_algorithm, read_text(line.skip("otp-algorithm = "@.len() as int))) {
            (None, Some(t)) => Some(EntryView { otp_algorithm: Some(t), ..entry }),
            _ => None,
        }
    } else {
        None
    }
}

/// Reading the line that opens a table: its namespace and its key.
pub open spec fn read_header(line: Seq<char>) -> Option<(Seq<char>, Seq<char>)> {
    if line.len() > "[kv."@.len() && has_lead(line, "[kv."@) && line.last() == ']' {
        let path = text::pieces(line.subrange("[kv."@.len() as int, line.len() - 1), '.');
        if path.len() == 2 && namespace::is_identifier(path[0]) && namespace::is_identifier(
            path[1],
        ) {
            Some((path[0], path[1]))
        } else {
            None
        }
    } else {
        None
    }
}

/// Whether one of the tables is `[kv.NS.KEY]`.
pub open spec fn has_table(tables: Seq<Table>, ns: Seq<char>, key: Seq<char>) -> bool {
    exists|i: int| 0 <= i < tables.len() && (#[trigger] tables[i]).0 == ns && tables[i].1 == key
}

/// Reading one line behind the tables before it. A table may not come twice.
pub open spec fn read_line(tables: Seq<Table>, line: Seq<char>) -> Option<Seq<Table>> {
    if line.len() == 0 {
        Some(tables)
    } else if line[0] == '[' {
        match read_header(line) {
            Some((ns, key)) => if has_table(tables, ns, key) {
                None
            } else {
                Some(tables.push((ns, key, empty_entry())))
            },
            None => None,
        }
    } else if tables.len() == 0 {
        None
    } else {
        match read_field(tables.last().2, line) {
            Some(entry) => Some(
                tables.drop_last().push((tables.last().0, tables.last().1, entry)),
            ),
            None => None,
        }
    }
}

/// Reading lines in their order.
pub open spec fn read_lines(lines: Seq<Seq<char>>) -> Option<Seq<Table>>
    decreases lines.len(),
{
    if lines.len() == 0 {
        Some(Seq::empty())
    } else {
        match read_lines(lines.drop_last()) {
            Some(tables) => read_line(tables, lines.last()),
            None => None,
        }
    }
}

/// Reading a file of definitions.
pub open spec fn read_document(s: Seq<char>) -> Option<Seq<Table>> {
    read_lines(text::pieces(s, '\n'))
}

/// Tables of one namespace brought together, as they are handed on.
pub open spec fn grouped(tables: Seq<Table>) -> Seq<(Seq<char>, Seq<(Seq<char>, EntryView)>)>
    decreases tables.len(),
{
    if tables.len() == 0 {
        Seq::empty()
    } else {
        let before = grouped(tables.drop_last());
        let (ns, key, entry) = tables.last();
        if before.len() > 0 && before.last().0 == ns {
            before.drop_last().push((ns, before.last().1.push((key, entry))))
        } else {
            before.push((ns, seq![(key, entry)]))
        }
    }
}

/// The namespace that a definition is filed in.
pub open spec fn file_namespace(def: DefView) -> Seq<char> {
    match def.namespace {
        Some(ns) => ns,
        None => "default"@,
    }
}

/// A definition as the persisted file gives it back: by its command, and pinned
/// to its namespace.
pub open spec fn pinned(def: DefView) -> DefView {
    DefView { namespace: Some(file_namespace(def)), ..as_command(def) }
}

/// The table that a definition is written as.
pub open spec fn table_of(def: DefView) -> Table {
    (file_namespace(def), def.name, table_entry(def))
}

/// The tables that definitions are written as.
pub open spec fn tables_of(all: Seq<DefView>) -> Seq<Table> {
    all.map_values(|d: DefView| table_of(d))
}

/// A definition that the persisted file can hold: its name and namespace are
/// identifiers, it has a command, and it does not ask to be run at the start.
pub open spec fn keepable(def: DefView) -> bool {
    &&& namespace::is_identifier(def.name)
    &&& def.namespace is Some ==> namespace::is_identifier(def.namespace->0)
    &&& config::source_argv(def.source).len() > 0
    &&& !def.preload
    &&& declarable(def.name, def.meta)
}

/// No two definitions have the same key.
pub open spec fn keys_apart(all: Seq<DefView>) -> bool {
    forall|i: int, j: int|
        0 <= i < j < all.len() ==> defs::file_key(#[trigger] all[i]) != defs::file_key(
            #[trigger] all[j],
        )
}

/// No line break in a text.
spec fn on_one_line(s: Seq<char>) -> bool {
    forall|i: int| 0 <= i < s.len() ==> #[trigger] s[i] != '\n'
}

/// Lines, each ended by a line break.
spec fn ended(lines: Seq<Seq<char>>) -> Seq<char>
    decreases lines.len(),
{
    if lines.len() == 0 {
        Seq::empty()
    } else {
        ended(lines.drop_last()) + lines.last().push('\n')
    }
}

proof fn pieces_of_plain(a: Seq<char>, b: Seq<char>, c: char)
    requires
        forall|i: int| 0 <= i < b.len() ==> #[trigger] b[i] != c,
    ensures
        text::pieces(a + b, c) == text::pieces(a, c).drop_last().push(
            text::pieces(a, c).last() + b,
        ),
        text::pieces(a, c).len() > 0,
    decreases a.len() + b.len(),
{
    if b.len() == 0 {
        if a.len() > 0 {
            pieces_of_plain(a.drop_last(), Seq::empty(), c);
            assert(a.drop_last() + Seq::<char>::empty() =~= a.drop_last());
        }
        assert(a + b =~= a);
        assert(text::pieces(a, c).last() + b =~= text::pieces(a, c).last());
        assert(text::pieces(a, c) =~= text::pieces(a, c).drop_last().push(
            text::pieces(a, c).last(),
        ));
    } else {
        let front = b.drop_last();
        pieces_of_plain(a, front, c);
        assert((a + b).drop_last() =~= a + front);
        assert((a + b).last() == b.last());
        assert(b[b.len() - 1] != c);
        let before = text::pieces(a, c);
        assert(before.drop_last().push(before.last() + front).drop_last() =~= before.drop_last());
        assert((before.last() + front).push(b.last()) =~= before.last() + b);
    }
}

proof fn pieces_of_lines(lines: Seq<Seq<char>>)
    requires
        forall|i: int| 0 <= i < lines.len() ==> on_one_line(#[trigger] lines[i]),
    ensures
        text::pieces(ended(lines), '\n') == lines.push(Seq::empty()),
    decreases lines.len(),
{
    if lines.len() == 0 {
        assert(text::pieces(ended(lines), '\n') =~= lines.push(Seq::empty()));
    } else {
        let front = lines.drop_last();
        let line = lines.last();
        assert forall|i: int| 0 <= i < front.len() implies on_one_line(#[trigger] front[i]) by {
            assert(front[i] == lines[i]);
        }
        pieces_of_lines(front);
        assert(on_one_line(lines[lines.len() - 1]));
        pieces_of_plain(ended(front), line, '\n');
        let s = ended(lines);
        assert(s.drop_last() =~= ended(front) + line);
        assert(s.last() == '\n');
        assert(front.push(Seq::<char>::empty()).drop_last() =~= front);
        assert(Seq::<char>::empty() + line =~= line);
        assert(text::pieces(s, '\n') =~= lines.push(Seq::empty())) by {
            assert(front.push(line) =~= lines);
        }
    }
}

proof fn ended_adds_up(a: Seq<Seq<char>>, b: Seq<Seq<char>>)
    ensures
        ended(a + b) == ended(a) + ended(b),
    decreases b.len(),
{
    if b.len() == 0 {
        assert(a + b =~= a);
        assert(ended(a) + ended(b) =~= ended(a));
    } else {
        ended_adds_up(a, b.drop_last());
        assert((a + b).drop_last() =~= a + b.drop_last());
        assert((a + b).last() == b.last());
        assert(ended(a + b) =~= ended(a) + ended(b));
    }
}

/// A line that may be missing.
spec fn optional_line(line: Option<Seq<char>>) -> Seq<Seq<char>> {
    match line {
        Some(l) => seq![l],
        None => Seq::empty(),
    }
}

spec fn header_line(def: DefView) -> Seq<char> {
    "[kv."@ + file_namespace(def) + "."@ + def.name + "]"@
}

spec fn command_line(def: DefView) -> Seq<char> {
    "command = "@ + defs::toml_array(config::source_argv(def.source))
}

spec fn duration_line(lead: Seq<char>, secs: Option<u64>) -> Option<Seq<char>> {
    match secs {
        Some(n) => Some(lead + "\""@ + (text::decimal(n as nat) + "s"@) + "\""@),
        None => None,
    }
}

spec fn type_line(meta: MetaView) -> Option<Seq<char>> {
    match meta.type_label {
        Some(t) => Some("type = "@ + "\""@ + t + "\""@),
        None => None,
    }
}

spec fn number_line(lead: Seq<char>, meta: MetaView, name: Seq<char>) -> Option<Seq<char>> {
    match (meta.type_label, config::param_value(meta.params, name)) {
        (Some(_), Some(v)) => Some(lead + v),
        _ => None,
    }
}

spec fn algorithm_line(meta: MetaView) -> Option<Seq<char>> {
    match (meta.type_label, config::param_value(meta.params, "algorithm"@)) {
        (Some(_), Some(v)) => Some("otp-algorithm = "@ + "\""@ + v + "\""@),
        _ => None,
    }
}

/// The lines of a table.
spec fn table_lines(def: DefView) -> Seq<Seq<char>> {
    seq![header_line(def)] + seq![command_line(def)] + optional_line(
        duration_line("soft-ttl = "@, def.soft_ttl_secs),
    ) + optional_line(duration_line("hard-ttl = "@, def.hard_ttl_secs)) + optional_line(
        type_line(def.meta),
    ) + optional_line(number_line("otp-digits = "@, def.meta, "digits"@)) + optional_line(
        number_line("otp-period = "@, def.meta, "period"@),
    ) + optional_line(algorithm_line(def.meta))
}

proof fn ended_one(line: Seq<char>)
    ensures
        ended(seq![line]) == line + "\n"@,
{
    reveal_strlit("\n");
    assert(seq![line].drop_last() =~= Seq::<Seq<char>>::empty());
    assert(ended(Seq::<Seq<char>>::empty()) =~= Seq::<char>::empty());
    assert(ended(seq![line]) =~= line + "\n"@);
}

proof fn ended_optional(line: Option<Seq<char>>)
    ensures
        ended(optional_line(line)) == match line {
            Some(l) => l + "\n"@,
            None => Seq::empty(),
        },
{
    if line is Some {
        ended_one(line->0);
    }
}

proof fn soft_ttl_is_its_line(secs: Option<u64>)
    ensures
        defs::ttl_line("soft-ttl"@, secs) == ended(
            optional_line(duration_line("soft-ttl = "@, secs)),
        ),
{
    reveal_strlit("\n");
    reveal_strlit("\"");
    reveal_strlit("s");
    reveal_strlit("s\"\n");
    reveal_strlit(" = \"");
    reveal_strlit("soft-ttl");
    reveal_strlit("soft-ttl = ");
    ended_optional(duration_line("soft-ttl = "@, secs));
    if let Some(n) = secs {
        let number = text::decimal(n as nat);
        assert("soft-ttl"@ + " = \""@ =~= "soft-ttl = "@ + "\""@);
        assert("s\"\n"@ =~= "s"@ + "\""@ + "\n"@);
        assert("soft-ttl"@ + " = \""@ + number + "s\"\n"@ =~= "soft-ttl = "@ + "\""@ + (number
            + "s"@) + "\""@ + "\n"@);
    }
}

proof fn hard_ttl_is_its_line(secs: Option<u64>)
    ensures
        defs::ttl_line("hard-ttl"@, secs) == ended(
            optional_line(duration_line("hard-ttl = "@, secs)),
        ),
{
    reveal_strlit("\n");
    reveal_strlit("\"");
    reveal_strlit("s");
    reveal_strlit("s\"\n");
    reveal_strlit(" = \"");
    reveal_strlit("hard-ttl");
    reveal_strlit("hard-ttl = ");
    ended_optional(duration_line("hard-ttl = "@, secs));
    if let Some(n) = secs {
        let number = text::decimal(n as nat);
        assert("hard-ttl"@ + " = \""@ =~= "hard-ttl = "@ + "\""@);
        assert("s\"\n"@ =~= "s"@ + "\""@ + "\n"@);
        assert("hard-ttl"@ + " = \""@ + number + "s\"\n"@ =~= "hard-ttl = "@ + "\""@ + (number
            + "s"@) + "\""@ + "\n"@);
    }
}

proof fn quoted_line_is_its_line(open: Seq<char>, lead: Seq<char>, v: Seq<char>)
    requires
        open == lead + "\""@,
    ensures
        open + v + "\"\n"@ == lead + "\""@ + v + "\""@ + "\n"@,
{
    reveal_strlit("\n");
    reveal_strlit("\"");
    reveal_strlit("\"\n");
    assert("\"\n"@ =~= "\""@ + "\n"@);
    assert(open + v + "\"\n"@ =~= lead + "\""@ + v + "\""@ + "\n"@);
}

proof fn meta_is_its_lines(meta: MetaView)
    ensures
        defs::meta_lines(meta) == ended(optional_line(type_line(meta))) + ended(
            optional_line(number_line("otp-digits = "@, meta, "digits"@)),
        ) + ended(optional_line(number_line("otp-period = "@, meta, "period"@))) + ended(
            optional_line(algorithm_line(meta)),
        ),
{
    reveal_strlit("\"");
    reveal_strlit("type = \"");
    reveal_strlit("type = ");
    reveal_strlit("otp-algorithm = \"");
    reveal_strlit("otp-algorithm = ");
    assert("type = \""@ =~= "type = "@ + "\""@);
    assert("otp-algorithm = \""@ =~= "otp-algorithm = "@ + "\""@);
    ended_optional(type_line(meta));
    ended_optional(number_line("otp-digits = "@, meta, "digits"@));
    ended_optional(number_line("otp-period = "@, meta, "period"@));
    ended_optional(algorithm_line(meta));
    if let Some(t) = meta.type_label {
        quoted_line_is_its_line("type = \""@, "type = "@, t);
        if let Some(a) = config::param_value(meta.params, "algorithm"@) {
            quoted_line_is_its_line("otp-algorithm = \""@, "otp-algorithm = "@, a);
        }
    } else {
        let nothing = Seq::<char>::empty();
        assert(nothing + nothing + nothing + nothing =~= nothing);
    }
}

#[verifier::rlimit(40)]
#[verifier::spinoff_prover]
proof fn table_is_its_lines(def: DefView)
    ensures
        defs::definition_table(def) == ended(table_lines(def)),
{
    reveal_strlit("\n");
    reveal_strlit("]");
    reveal_strlit("]\n");
    let soft = optional_line(duration_line("soft-ttl = "@, def.soft_ttl_secs));
    let hard = optional_line(duration_line("hard-ttl = "@, def.hard_ttl_secs));
    let kind = optional_line(type_line(def.meta));
    let digits = optional_line(number_line("otp-digits = "@, def.meta, "digits"@));
    let period = optional_line(number_line("otp-period = "@, def.meta, "period"@));
    let algorithm = optional_line(algorithm_line(def.meta));
    let header = seq![header_line(def)];
    let command = seq![command_line(def)];
    ended_one(header_line(def));
    ended_one(command_line(def));
    ended_adds_up(header, command);
    ended_adds_up(header + command, soft);
    ended_adds_up(header + command + soft, hard);
    ended_adds_up(header + command + soft + hard, kind);
    ended_adds_up(header + command + soft + hard + kind, digits);
    ended_adds_up(header + command + soft + hard + kind + digits, period);
    ended_adds_up(header + command + soft + hard + kind + digits + period, algorithm);
    soft_ttl_is_its_line(def.soft_ttl_secs);
    hard_ttl_is_its_line(def.hard_ttl_secs);
    meta_is_its_lines(def.meta);
    let head = "[kv."@ + file_namespace(def) + "."@ + def.name;
    assert(head + "]\n"@ =~= head + "]"@ + "\n"@);
    let start = head + "]\n"@ + "command = "@ + defs::toml_array(config::source_argv(def.source)) + "\n"@;
    assert(start =~= ended(header) + ended(command));
    let a = start + ended(soft) + ended(hard);
    assert(a + (ended(kind) + ended(digits) + ended(period) + ended(algorithm)) =~= a + ended(kind)
        + ended(digits) + ended(period) + ended(algorithm));
}

proof fn escaped_text_is_one_line(s: Seq<char>)
    ensures
        on_one_line(defs::toml_escaped(s)),
    decreases s.len(),
{
    if s.len() > 0 {
        escaped_text_is_one_line(s.drop_last());
        let unit = defs::toml_unit(s.last());
        assert forall|i: int| 0 <= i < unit.len() implies #[trigger] unit[i] != '\n' by {
            if defs::is_toml_control(s.last()) {
                let code = s.last() as nat;
                defs::control_codes_are_small(s.last());
                assert(code / 16 < 16 && code % 16 < 16);
                assert(defs::hex_digit(code / 16) != '\n' && defs::hex_digit(code % 16) != '\n');
            }
        }
    }
}

proof fn joined_is_one_line(parts: Seq<Seq<char>>, sep: Seq<char>)
    requires
        forall|i: int| 0 <= i < parts.len() ==> on_one_line(#[trigger] parts[i]),
        on_one_line(sep),
    ensures
        on_one_line(text::joined(parts, sep)),
    decreases parts.len(),
{
    if parts.len() > 1 {
        let front = parts.drop_last();
        assert forall|i: int| 0 <= i < front.len() implies on_one_line(#[trigger] front[i]) by {
            assert(front[i] == parts[i]);
        }
        joined_is_one_line(front, sep);
        assert(on_one_line(parts[parts.len() - 1]));
    } else if parts.len() == 1 {
        assert(on_one_line(parts[0]));
    }
}

proof fn array_is_one_line(items: Seq<Seq<char>>)
    ensures
        on_one_line(defs::toml_array(items)),
{
    reveal_strlit("\"");
    reveal_strlit("[");
    reveal_strlit("]");
    reveal_strlit(", ");
    let quoted = items.map_values(|s: Seq<char>| defs::toml_quoted(s));
    assert forall|i: int| 0 <= i < quoted.len() implies on_one_line(#[trigger] quoted[i]) by {
        escaped_text_is_one_line(items[i]);
        assert(quoted[i] == defs::toml_quoted(items[i]));
    }
    joined_is_one_line(quoted, ", "@);
}

proof fn identifiers_are_plain(s: Seq<char>)
    requires
        namespace::is_identifier(s),
    ensures
        on_one_line(s),
        forall|i: int| 0 <= i < s.len() ==> #[trigger] s[i] != '.',
{
    assert forall|i: int| 0 <= i < s.len() implies #[trigger] s[i] != '.' && s[i] != '\n' by {
        assert(namespace::is_identifier_char(s[i]));
    }
}

proof fn digits_are_plain(s: Seq<char>)
    requires
        text::is_digits(s),
    ensures
        on_one_line(s),
        defs::toml_escaped(s) == s,
{
    assert forall|i: int| 0 <= i < s.len() implies #[trigger] s[i] != '\n' && stands_for_itself(
        s[i],
    ) by {
        assert(text::is_digit(s[i]));
    }
    nothing_to_escape(s);
}

/// A character that needs no escape.
spec fn stands_for_itself(c: char) -> bool {
    c != '"' && c != '\\' && !defs::is_toml_control(c)
}

proof fn nothing_to_escape(s: Seq<char>)
    requires
        forall|i: int| 0 <= i < s.len() ==> stands_for_itself(#[trigger] s[i]),
    ensures
        defs::toml_escaped(s) == s,
    decreases s.len(),
{
    if s.len() > 0 {
        let front = s.drop_last();
        assert forall|i: int| 0 <= i < front.len() implies stands_for_itself(#[trigger] front[i]) by {
            assert(front[i] == s[i]);
        }
        nothing_to_escape(front);
        assert(stands_for_itself(s[s.len() - 1]));
        assert(front + seq![s.last()] =~= s);
    } else {
        assert(defs::toml_escaped(s) =~= s);
    }
}

proof fn default_is_an_identifier()
    ensures
        namespace::is_identifier("default"@),
{
    reveal_strlit("default");
}

proof fn header_reads_back(def: DefView)
    requires
        keepable(def),
    ensures
        read_header(header_line(def)) == Some((file_namespace(def), def.name)),
        on_one_line(header_line(def)),
        header_line(def).len() > 0,
        header_line(def)[0] == '[',
{
    reveal_strlit("[kv.");
    reveal_strlit(".");
    reveal_strlit("]");
    default_is_an_identifier();
    let ns = file_namespace(def);
    let line = header_line(def);
    identifiers_are_plain(ns);
    identifiers_are_plain(def.name);
    assert(line.take(4) =~= "[kv."@);
    let inner = line.subrange(4, line.len() - 1);
    assert(inner =~= ns.push('.') + def.name);
    pieces_of_plain(Seq::empty(), ns, '.');
    assert(Seq::<char>::empty() + ns =~= ns);
    assert(text::pieces(Seq::<char>::empty(), '.') =~= seq![Seq::<char>::empty()]);
    assert(text::pieces(ns, '.') =~= seq![ns]);
    assert(ns.push('.').drop_last() =~= ns);
    assert(text::pieces(ns.push('.'), '.') =~= seq![ns, Seq::<char>::empty()]);
    pieces_of_plain(ns.push('.'), def.name, '.');
    assert(Seq::<char>::empty() + def.name =~= def.name);
    assert(text::pieces(inner, '.') =~= seq![ns, def.name]);
}

proof fn written_text_reads_back(t: Seq<char>)
    requires
        defs::toml_escaped(t) == t,
    ensures
        read_text("\""@ + t + "\""@) == Some(t),
{
    reveal_strlit("\"");
    let v = "\""@ + t + "\""@;
    quoted_reads_back(t, Seq::empty());
    assert(v.skip(1) =~= defs::toml_escaped(t) + seq!['"'] + Seq::<char>::empty());
}

proof fn leads_are_apart()
    ensures
        "command = "@.len() > 0 && "command = "@[0] == 'c',
        "soft-ttl = "@.len() > 0 && "soft-ttl = "@[0] == 's',
        "hard-ttl = "@.len() > 0 && "hard-ttl = "@[0] == 'h',
        "type = "@.len() > 0 && "type = "@[0] == 't',
        "otp-digits = "@.len() > 4 && "otp-digits = "@[0] == 'o' && "otp-digits = "@[4] == 'd',
        "otp-period = "@.len() > 4 && "otp-period = "@[0] == 'o' && "otp-period = "@[4] == 'p',
        "otp-algorithm = "@.len() > 4 && "otp-algorithm = "@[0] == 'o' && "otp-algorithm = "@[4]
            == 'a',
        on_one_line("command = "@),
        on_one_line("soft-ttl = "@),
        on_one_line("hard-ttl = "@),
        on_one_line("type = "@),
        on_one_line("otp-digits = "@),
        on_one_line("otp-period = "@),
        on_one_line("otp-algorithm = "@),
        on_one_line("\""@),
{
    reveal_strlit("command = ");
    reveal_strlit("soft-ttl = ");
    reveal_strlit("hard-ttl = ");
    reveal_strlit("type = ");
    reveal_strlit("otp-digits = ");
    reveal_strlit("otp-period = ");
    reveal_strlit("otp-algorithm = ");
    reveal_strlit("\"");
}

proof fn lead_is_taken(lead: Seq<char>, v: Seq<char>)
    ensures
        has_lead(lead + v, lead),
        (lead + v).skip(lead.len() as int) == v,
{
    assert((lead + v).take(lead.len() as int) =~= lead);
    assert((lead + v).skip(lead.len() as int) =~= v);
}

proof fn other_lead(line: Seq<char>, lead: Seq<char>, i: int)
    requires
        0 <= i < lead.len(),
        i < line.len(),
        line[i] != lead[i],
    ensures
        !has_lead(line, lead),
{
    if has_lead(line, lead) {
        assert(line.take(lead.len() as int)[i] == lead[i]);
    }
}

/// What is known of a line that gives a field.
#[verifier::opaque]
spec fn gives(line: Seq<char>, before: EntryView, after: EntryView) -> bool {
    &&& read_field(before, line) == Some(after)
    &&& on_one_line(line)
    &&& line.len() > 0
    &&& line[0] != '['
}

proof fn command_line_gives(def: DefView, entry: EntryView)
    requires
        keepable(def),
        entry.command is None,
    ensures
        gives(command_line(def), entry, EntryView { command: Some(config::source_argv(def.source)), ..entry }),
{
    reveal(gives);
    leads_are_apart();
    let v = defs::toml_array(config::source_argv(def.source));
    lead_is_taken("command = "@, v);
    argv_reads_back(config::source_argv(def.source));
    array_is_one_line(config::source_argv(def.source));
}

proof fn soft_line_gives(secs: u64, entry: EntryView)
    requires
        entry.soft_ttl is None,
    ensures
        gives(
            duration_line("soft-ttl = "@, Some(secs))->0,
            entry,
            EntryView { soft_ttl: Some(text::decimal(secs as nat) + "s"@), ..entry },
        ),
{
    reveal(gives);
    leads_are_apart();
    let line = duration_line("soft-ttl = "@, Some(secs))->0;
    let t = text::decimal(secs as nat) + "s"@;
    duration_is_plain(secs);
    let v = "\""@ + t + "\""@;
    assert(line =~= "soft-ttl = "@ + v);
    lead_is_taken("soft-ttl = "@, v);
    other_lead(line, "command = "@, 0);
    written_text_reads_back(t);
}

proof fn hard_line_gives(secs: u64, entry: EntryView)
    requires
        entry.hard_ttl is None,
    ensures
        gives(
            duration_line("hard-ttl = "@, Some(secs))->0,
            entry,
            EntryView { hard_ttl: Some(text::decimal(secs as nat) + "s"@), ..entry },
        ),
{
    reveal(gives);
    leads_are_apart();
    let line = duration_line("hard-ttl = "@, Some(secs))->0;
    let t = text::decimal(secs as nat) + "s"@;
    duration_is_plain(secs);
    let v = "\""@ + t + "\""@;
    assert(line =~= "hard-ttl = "@ + v);
    lead_is_taken("hard-ttl = "@, v);
    other_lead(line, "command = "@, 0);
    other_lead(line, "soft-ttl = "@, 0);
    written_text_reads_back(t);
}

proof fn duration_is_plain(secs: u64)
    ensures
        on_one_line(text::decimal(secs as nat) + "s"@),
        defs::toml_escaped(text::decimal(secs as nat) + "s"@) == text::decimal(secs as nat) + "s"@,
{
    reveal_strlit("s");
    let number = text::decimal(secs as nat);
    text::decimal_reads_back(secs as nat);
    digits_are_plain(number);
    let t = number + "s"@;
    assert forall|i: int| 0 <= i < t.len() implies stands_for_itself(#[trigger] t[i]) by {
        if i < number.len() {
            assert(t[i] == number[i]);
            assert(text::is_digit(number[i]));
        }
    }
    nothing_to_escape(t);
}

proof fn type_line_gives(entry: EntryView)
    requires
        entry.value_type is None,
    ensures
        gives(
            "type = "@ + "\""@ + "otp"@ + "\""@,
            entry,
            EntryView { value_type: Some("otp"@), ..entry },
        ),
{
    reveal(gives);
    leads_are_apart();
    reveal_strlit("otp");
    let t = "otp"@;
    let line = "type = "@ + "\""@ + t + "\""@;
    let v = "\""@ + t + "\""@;
    assert(line =~= "type = "@ + v);
    lead_is_taken("type = "@, v);
    other_lead(line, "command = "@, 0);
    other_lead(line, "soft-ttl = "@, 0);
    other_lead(line, "hard-ttl = "@, 0);
    nothing_to_escape(t);
    written_text_reads_back(t);
}

proof fn digits_line_gives(d: Seq<char>, entry: EntryView)
    requires
        entry.otp_digits is None,
        text::is_digits(d),
        text::digits_value(d) <= u32::MAX,
    ensures
        gives(
            "otp-digits = "@ + d,
            entry,
            EntryView { otp_digits: Some(text::digits_value(d) as u32), ..entry },
        ),
{
    reveal(gives);
    leads_are_apart();
    let line = "otp-digits = "@ + d;
    lead_is_taken("otp-digits = "@, d);
    other_lead(line, "command = "@, 0);
    other_lead(line, "soft-ttl = "@, 0);
    other_lead(line, "hard-ttl = "@, 0);
    other_lead(line, "type = "@, 0);
    digits_are_plain(d);
}

proof fn period_line_gives(p: Seq<char>, entry: EntryView)
    requires
        entry.otp_period is None,
        text::is_digits(p),
        text::digits_value(p) <= u64::MAX,
    ensures
        gives(
            "otp-period = "@ + p,
            entry,
            EntryView { otp_period: Some(text::digits_value(p) as u64), ..entry },
        ),
{
    reveal(gives);
    leads_are_apart();
    let line = "otp-period = "@ + p;
    lead_is_taken("otp-period = "@, p);
    other_lead(line, "command = "@, 0);
    other_lead(line, "soft-ttl = "@, 0);
    other_lead(line, "hard-ttl = "@, 0);
    other_lead(line, "type = "@, 0);
    assert(line[4] == "otp-period = "@[4]);
    other_lead(line, "otp-digits = "@, 4);
    digits_are_plain(p);
}

proof fn algorithm_line_gives(a: Seq<char>, entry: EntryView)
    requires
        entry.otp_algorithm is None,
        config::known_algorithm(a),
    ensures
        gives(
            "otp-algorithm = "@ + "\""@ + a + "\""@,
            entry,
            EntryView { otp_algorithm: Some(a), ..entry },
        ),
{
    reveal(gives);
    leads_are_apart();
    reveal_strlit("sha1");
    reveal_strlit("sha256");
    reveal_strlit("sha512");
    assert(on_one_line(a));
    nothing_to_escape(a);
    let line = "otp-algorithm = "@ + "\""@ + a + "\""@;
    let v = "\""@ + a + "\""@;
    assert(line =~= "otp-algorithm = "@ + v);
    lead_is_taken("otp-algorithm = "@, v);
    other_lead(line, "command = "@, 0);
    other_lead(line, "soft-ttl = "@, 0);
    other_lead(line, "hard-ttl = "@, 0);
    other_lead(line, "type = "@, 0);
    assert(line[4] == "otp-algorithm = "@[4]);
    other_lead(line, "otp-digits = "@, 4);
    other_lead(line, "otp-period = "@, 4);
    written_text_reads_back(a);
}

proof fn declared_fields(def: DefView)
    requires
        declarable(def.name, def.meta),
    ensures
        ({
            let digits = config::param_value(def.meta.params, "digits"@);
            let period = config::param_value(def.meta.params, "period"@);
            let algorithm = config::param_value(def.meta.params, "algorithm"@);
            &&& def.meta.type_label is None ==> digits is None && period is None && algorithm
                is None
            &&& def.meta.type_label is Some ==> def.meta.type_label->0 == "otp"@
            &&& digits is Some ==> text::is_digits(digits->0) && text::digits_value(digits->0)
                <= u32::MAX
            &&& period is Some ==> text::is_digits(period->0) && text::digits_value(period->0)
                <= u64::MAX
            &&& algorithm is Some ==> config::known_algorithm(algorithm->0)
        }),
{
    let (digits, period, algorithm) = choose|
        digits: Option<u32>,
        period: Option<u64>,
        algorithm: Option<Seq<char>>,
    |
        #[trigger] config::kv_meta(def.name, def.meta.type_label, digits, period, algorithm)
            == Ok::<MetaView, Seq<char>>(def.meta);
    if def.meta.type_label is None {
        assert(def.meta.params =~= Seq::<(Seq<char>, Seq<char>)>::empty());
    } else {
        let a = match algorithm {
            Some(a) => Some(text::lowered(a)),
            None => None,
        };
        let d = match digits {
            Some(d) => Some(text::decimal(d as nat)),
            None => None,
        };
        let p = match period {
            Some(p) => Some(text::decimal(p as nat)),
            None => None,
        };
        declared_params_read_back(a, d, p);
        if digits is Some {
            text::decimal_reads_back(digits->0 as nat);
        }
        if period is Some {
            text::decimal_reads_back(period->0 as nat);
        }
    }
}

/// Reading `lines` gives `tables` and, behind them, the table of `def` with the
/// fields `entry`; every line is one line.
#[verifier::opaque]
spec fn reads_as(
    lines: Seq<Seq<char>>,
    tables: Seq<Table>,
    def: DefView,
    entry: EntryView,
) -> bool {
    &&& read_lines(lines) == Some(tables.push((file_namespace(def), def.name, entry)))
    &&& forall|i: int| 0 <= i < lines.len() ==> on_one_line(#[trigger] lines[i])
}

proof fn field_is_read(
    lines: Seq<Seq<char>>,
    tables: Seq<Table>,
    def: DefView,
    entry: EntryView,
    line: Option<Seq<char>>,
    after: EntryView,
)
    requires
        reads_as(lines, tables, def, entry),
        match line {
            Some(l) => gives(l, entry, after),
            None => after == entry,
        },
    ensures
        reads_as(lines + optional_line(line), tables, def, after),
{
    reveal(gives);
    reveal(reads_as);
    let more = lines + optional_line(line);
    if let Some(l) = line {
        assert(more =~= lines.push(l));
        assert(more.drop_last() =~= lines);
        let before = tables.push((file_namespace(def), def.name, entry));
        assert(before.drop_last() =~= tables);
        assert forall|i: int| 0 <= i < more.len() implies on_one_line(#[trigger] more[i]) by {
            if i < lines.len() {
                assert(more[i] == lines[i]);
            }
        }
    } else {
        assert(more =~= lines);
    }
}

proof fn lines_add_up(a: Seq<Seq<char>>, b: Seq<Seq<char>>, c: Seq<Seq<char>>)
    ensures
        (a + b) + c == a + (b + c),
{
    assert((a + b) + c =~= a + (b + c));
}

proof fn table_reads_back(lines: Seq<Seq<char>>, tables: Seq<Table>, def: DefView)
    requires
        keepable(def),
        read_lines(lines) == Some(tables),
        forall|i: int| 0 <= i < lines.len() ==> on_one_line(#[trigger] lines[i]),
        !has_table(tables, file_namespace(def), def.name),
    ensures
        reads_as(lines + table_lines(def), tables, def, table_entry(def)),
{
    declared_fields(def);
    header_reads_back(def);
    let header = seq![header_line(def)];
    let command = command_line(def);
    let soft = duration_line("soft-ttl = "@, def.soft_ttl_secs);
    let hard = duration_line("hard-ttl = "@, def.hard_ttl_secs);
    let kind = type_line(def.meta);
    let digits = number_line("otp-digits = "@, def.meta, "digits"@);
    let period = number_line("otp-period = "@, def.meta, "period"@);
    let algorithm = algorithm_line(def.meta);
    let whole = table_entry(def);

    let e0 = empty_entry();
    let l0 = lines + header;
    assert(l0 =~= lines.push(header_line(def)));
    assert(l0.drop_last() =~= lines);
    assert forall|i: int| 0 <= i < l0.len() implies on_one_line(#[trigger] l0[i]) by {
        if i < lines.len() {
            assert(l0[i] == lines[i]);
        }
    }
    assert(reads_as(l0, tables, def, e0)) by {
        reveal(reads_as);
    }

    let e1 = EntryView { command: whole.command, ..e0 };
    command_line_gives(def, e0);
    field_is_read(l0, tables, def, e0, Some(command), e1);
    let l1 = l0 + optional_line(Some(command));

    let e2 = EntryView { soft_ttl: whole.soft_ttl, ..e1 };
    if def.soft_ttl_secs is Some {
        soft_line_gives(def.soft_ttl_secs->0, e1);
    }
    field_is_read(l1, tables, def, e1, soft, e2);
    let l2 = l1 + optional_line(soft);

    let e3 = EntryView { hard_ttl: whole.hard_ttl, ..e2 };
    if def.hard_ttl_secs is Some {
        hard_line_gives(def.hard_ttl_secs->0, e2);
    }
    field_is_read(l2, tables, def, e2, hard, e3);
    let l3 = l2 + optional_line(hard);

    let e4 = EntryView { value_type: whole.value_type, ..e3 };
    if def.meta.type_label is Some {
        type_line_gives(e3);
    }
    field_is_read(l3, tables, def, e3, kind, e4);
    let l4 = l3 + optional_line(kind);

    let e5 = EntryView { otp_digits: whole.otp_digits, ..e4 };
    if let Some(d) = config::param_value(def.meta.params, "digits"@) {
        digits_line_gives(d, e4);
    }
    field_is_read(l4, tables, def, e4, digits, e5);
    let l5 = l4 + optional_line(digits);

    let e6 = EntryView { otp_period: whole.otp_period, ..e5 };
    if let Some(p) = config::param_value(def.meta.params, "period"@) {
        period_line_gives(p, e5);
    }
    field_is_read(l5, tables, def, e5, period, e6);
    let l6 = l5 + optional_line(period);

    let e7 = EntryView { otp_algorithm: whole.otp_algorithm, ..e6 };
    if let Some(a) = config::param_value(def.meta.params, "algorithm"@) {
        algorithm_line_gives(a, e6);
    }
    field_is_read(l6, tables, def, e6, algorithm, e7);
    assert(e7 =~= whole);
    let t1 = header + seq![command];
    let t2 = t1 + optional_line(soft);
    let t3 = t2 + optional_line(hard);
    let t4 = t3 + optional_line(kind);
    let t5 = t4 + optional_line(digits);
    let t6 = t5 + optional_line(period);
    lines_add_up(lines, header, seq![command]);
    lines_add_up(lines, t1, optional_line(soft));
    lines_add_up(lines, t2, optional_line(hard));
    lines_add_up(lines, t3, optional_line(kind));
    lines_add_up(lines, t4, optional_line(digits));
    lines_add_up(lines, t5, optional_line(period));
    lines_add_up(lines, t6, optional_line(algorithm));
    assert(l6 + optional_line(algorithm) == lines + table_lines(def));
}

/// The lines of a file: those of its tables, with an empty one between
/// neighbours.
spec fn file_lines(all: Seq<DefView>) -> Seq<Seq<char>>
    decreases all.len(),
{
    if all.len() == 0 {
        Seq::empty()
    } else if all.len() == 1 {
        table_lines(all[0])
    } else {
        file_lines(all.drop_last()).push(Seq::empty()) + table_lines(all.last())
    }
}

proof fn file_is_its_lines(all: Seq<DefView>)
    ensures
        text::joined(all.map_values(|d: DefView| defs::definition_table(d)), "\n"@) == ended(
            file_lines(all),
        ),
    decreases all.len(),
{
    let tables = all.map_values(|d: DefView| defs::definition_table(d));
    if all.len() == 0 {
        assert(ended(file_lines(all)) =~= Seq::<char>::empty());
    } else if all.len() == 1 {
        table_is_its_lines(all[0]);
    } else {
        let front = all.drop_last();
        file_is_its_lines(front);
        assert(tables.drop_last() =~= front.map_values(|d: DefView| defs::definition_table(d)));
        assert(tables.last() == defs::definition_table(all.last()));
        table_is_its_lines(all.last());
        let gap = file_lines(front).push(Seq::<char>::empty());
        ended_adds_up(gap, table_lines(all.last()));
        ended_adds_up(file_lines(front), seq![Seq::<char>::empty()]);
        assert(gap =~= file_lines(front) + seq![Seq::<char>::empty()]);
        ended_one(Seq::empty());
        assert(Seq::<char>::empty() + "\n"@ =~= "\n"@);
    }
}

proof fn file_lines_read_back(all: Seq<DefView>)
    requires
        forall|i: int| 0 <= i < all.len() ==> keepable(#[trigger] all[i]),
        keys_apart(all),
    ensures
        read_lines(file_lines(all)) == Some(tables_of(all)),
        forall|i: int| 0 <= i < file_lines(all).len() ==> on_one_line(#[trigger] file_lines(all)[i]),
    decreases all.len(),
{
    if all.len() == 0 {
        assert(tables_of(all) =~= Seq::<Table>::empty());
    } else {
        let front = all.drop_last();
        let def = all.last();
        assert(keepable(all[all.len() - 1]));
        assert forall|i: int| 0 <= i < front.len() implies keepable(#[trigger] front[i]) by {
            assert(front[i] == all[i]);
        }
        assert forall|i: int, j: int| 0 <= i < j < front.len() implies defs::file_key(
            #[trigger] front[i],
        ) != defs::file_key(#[trigger] front[j]) by {
            assert(front[i] == all[i] && front[j] == all[j]);
        }
        file_lines_read_back(front);
        let before = tables_of(front);
        if has_table(before, file_namespace(def), def.name) {
            let i = choose|i: int|
                0 <= i < before.len() && (#[trigger] before[i]).0 == file_namespace(def)
                    && before[i].1 == def.name;
            assert(before[i] == table_of(front[i]));
            assert(front[i] == all[i]);
            assert(defs::file_key(all[i]) != defs::file_key(all[all.len() - 1]));
        }
        let lead = if all.len() == 1 {
            Seq::<Seq<char>>::empty()
        } else {
            file_lines(front).push(Seq::<char>::empty())
        };
        if all.len() == 1 {
            assert(front =~= Seq::<DefView>::empty());
            assert(before =~= Seq::<Table>::empty());
            assert(lead + table_lines(def) =~= table_lines(def));
        } else {
            assert(lead.drop_last() =~= file_lines(front));
            assert(on_one_line(Seq::<char>::empty()));
            assert forall|i: int| 0 <= i < lead.len() implies on_one_line(#[trigger] lead[i]) by {
                if i < file_lines(front).len() {
                    assert(lead[i] == file_lines(front)[i]);
                }
            }
        }
        table_reads_back(lead, before, def);
        reveal(reads_as);
        assert(tables_of(all) =~= before.push(table_of(def)));
    }
}

proof fn filing_keeps_keys_apart(all: Seq<DefView>, def: DefView)
    requires
        keys_apart(all),
        forall|i: int| 0 <= i < all.len() ==> defs::file_key(#[trigger] all[i]) != defs::file_key(
            def,
        ),
    ensures
        keys_apart(defs::filed(all, def)),
        forall|i: int|
            0 <= i < defs::filed(all, def).len() ==> #[trigger] defs::filed(all, def)[i] == def
                || all.contains(defs::filed(all, def)[i]),
    decreases all.len(),
{
    let out = defs::filed(all, def);
    if all.len() > 0 && text::text_lt(defs::file_key(def), defs::file_key(all.last())) {
        let front = all.drop_last();
        assert forall|i: int, j: int| 0 <= i < j < front.len() implies defs::file_key(
            #[trigger] front[i],
        ) != defs::file_key(#[trigger] front[j]) by {
            assert(front[i] == all[i] && front[j] == all[j]);
        }
        assert forall|i: int| 0 <= i < front.len() implies defs::file_key(#[trigger] front[i])
            != defs::file_key(def) by {
            assert(front[i] == all[i]);
        }
        filing_keeps_keys_apart(front, def);
        let inner = defs::filed(front, def);
        assert(out == inner.push(all.last()));
        assert forall|i: int| 0 <= i < inner.len() implies defs::file_key(#[trigger] inner[i])
            != defs::file_key(all.last()) by {
            if inner[i] != def {
                let k = choose|k: int| 0 <= k < front.len() && front[k] == inner[i];
                assert(front[k] == all[k]);
                assert(all[all.len() - 1] == all.last());
                assert(defs::file_key(all[k]) != defs::file_key(all[all.len() - 1]));
            } else {
                assert(defs::file_key(all[all.len() - 1]) != defs::file_key(def));
            }
        }
        assert forall|i: int, j: int| 0 <= i < j < out.len() implies defs::file_key(
            #[trigger] out[i],
        ) != defs::file_key(#[trigger] out[j]) by {
            assert(out[i] == inner[i]);
            if j < inner.len() {
                assert(out[j] == inner[j]);
            }
        }
        assert forall|i: int| 0 <= i < out.len() implies #[trigger] out[i] == def || all.contains(
            out[i],
        ) by {
            if i < inner.len() {
                assert(out[i] == inner[i]);
                if inner[i] != def {
                    let k = choose|k: int| 0 <= k < front.len() && front[k] == inner[i];
                    assert(all[k] == inner[i]);
                }
            } else {
                assert(all[all.len() - 1] == out[i]);
            }
        }
    } else {
        assert(out == all.push(def));
        assert forall|i: int, j: int| 0 <= i < j < out.len() implies defs::file_key(
            #[trigger] out[i],
        ) != defs::file_key(#[trigger] out[j]) by {
            assert(out[i] == all[i]);
            if j < all.len() {
                assert(out[j] == all[j]);
            }
        }
        assert forall|i: int| 0 <= i < out.len() implies #[trigger] out[i] == def || all.contains(
            out[i],
        ) by {
            if i < all.len() {
                assert(out[i] == all[i]);
            }
        }
    }
}

proof fn ordering_keeps_keys_apart(all: Seq<DefView>)
    requires
        keys_apart(all),
    ensures
        keys_apart(defs::in_key_order(all)),
        forall|i: int|
            0 <= i < defs::in_key_order(all).len() ==> all.contains(
                #[trigger] defs::in_key_order(all)[i],
            ),
    decreases all.len(),
{
    if all.len() > 0 {
        let front = all.drop_last();
        assert forall|i: int, j: int| 0 <= i < j < front.len() implies defs::file_key(
            #[trigger] front[i],
        ) != defs::file_key(#[trigger] front[j]) by {
            assert(front[i] == all[i] && front[j] == all[j]);
        }
        ordering_keeps_keys_apart(front);
        let before = defs::in_key_order(front);
        assert forall|i: int| 0 <= i < before.len() implies defs::file_key(#[trigger] before[i])
            != defs::file_key(all.last()) by {
            let k = choose|k: int| 0 <= k < front.len() && front[k] == before[i];
            assert(front[k] == all[k]);
            assert(defs::file_key(all[k]) != defs::file_key(all[all.len() - 1]));
        }
        filing_keeps_keys_apart(before, all.last());
        let out = defs::in_key_order(all);
        assert forall|i: int| 0 <= i < out.len() implies all.contains(#[trigger] out[i]) by {
            if out[i] == all.last() {
                assert(all[all.len() - 1] == out[i]);
            } else {
                let j = choose|j: int| 0 <= j < before.len() && before[j] == out[i];
                assert(front.contains(before[j]));
                let k = choose|k: int| 0 <= k < front.len() && front[k] == before[j];
                assert(all[k] == out[i]);
            }
        }
    }
}

proof fn grouped_tables_read_back(all: Seq<DefView>)
    requires
        forall|i: int| 0 <= i < all.len() ==> keepable(#[trigger] all[i]),
    ensures
        defs::persisted_all(grouped(tables_of(all))) == Ok::<Seq<DefView>, Seq<char>>(
            all.map_values(|d: DefView| pinned(d)),
        ),
    decreases all.len(),
{
    let want = all.map_values(|d: DefView| pinned(d));
    let tables = tables_of(all);
    if all.len() == 0 {
        assert(want =~= Seq::<DefView>::empty());
    } else {
        let front = all.drop_last();
        let def = all.last();
        assert(keepable(all[all.len() - 1]));
        assert forall|i: int| 0 <= i < front.len() implies keepable(#[trigger] front[i]) by {
            assert(front[i] == all[i]);
        }
        grouped_tables_read_back(front);
        default_is_an_identifier();
        let ns = file_namespace(def);
        persisted_definitions_read_back(pinned(def));
        assert(table_entry(pinned(def)) == table_entry(def));
        assert(tables.drop_last() =~= tables_of(front));
        assert(tables.last() == table_of(def));
        let before = grouped(tables_of(front));
        let after = grouped(tables);
        let item = (def.name, table_entry(def));
        let done = front.map_values(|d: DefView| pinned(d));
        assert(want =~= done.push(pinned(def)));
        assert(defs::persisted_entry(ns, item.0, item.1) == Ok::<DefView, Seq<char>>(pinned(def)));
        if before.len() > 0 && before.last().0 == ns {
            let items = before.last().1;
            assert(after.drop_last() =~= before.drop_last());
            assert(items.push(item).drop_last() =~= items);
            let head = defs::persisted_all(before.drop_last());
            let tail = defs::persisted_entries(ns, items);
            assert(head is Ok && tail is Ok);
            assert(done == head->Ok_0 + tail->Ok_0);
            assert(defs::persisted_entries(ns, items.push(item)) == Ok::<Seq<DefView>, Seq<char>>(
                tail->Ok_0.push(pinned(def)),
            ));
            assert(head->Ok_0 + tail->Ok_0.push(pinned(def)) =~= done.push(pinned(def)));
        } else {
            assert(after.drop_last() =~= before);
            let one = seq![item];
            assert(one.drop_last() =~= Seq::<(Seq<char>, EntryView)>::empty());
            assert(defs::persisted_entries(ns, one.drop_last()) == Ok::<Seq<DefView>, Seq<char>>(
                Seq::empty(),
            ));
            assert(defs::persisted_entries(ns, one) == Ok::<Seq<DefView>, Seq<char>>(
                Seq::<DefView>::empty().push(pinned(def)),
            ));
            assert(done + Seq::<DefView>::empty().push(pinned(def)) =~= done.push(pinned(def)));
        }
    }
}

/// What was persisted comes back: the file of any definitions that it can hold,
/// no two of the same key, reads as one table for each, and these stand for the
/// same definitions again, by the commands that they come down to, in the order
/// of their keys and pinned to their namespaces.
pub proof fn persisted_file_reads_back(all: Seq<DefView>)
    requires
        forall|i: int| 0 <= i < all.len() ==> keepable(#[trigger] all[i]),
        keys_apart(all),
    ensures
        read_document(defs::definitions_file(all)) == Some(tables_of(defs::in_key_order(all))),
        defs::persisted_all(grouped(tables_of(defs::in_key_order(all)))) == Ok::<
            Seq<DefView>,
            Seq<char>,
        >(defs::in_key_order(all).map_values(|d: DefView| pinned(d))),
{
    let sorted = defs::in_key_order(all);
    ordering_keeps_keys_apart(all);
    assert forall|i: int| 0 <= i < sorted.len() implies keepable(#[trigger] sorted[i]) by {
        let k = choose|k: int| 0 <= k < all.len() && all[k] == sorted[i];
        assert(keepable(all[k]));
    }
    file_is_its_lines(sorted);
    file_lines_read_back(sorted);
    let lines = file_lines(sorted);
    pieces_of_lines(lines);
    assert(lines.push(Seq::<char>::empty()).drop_last() =~= lines);
    grouped_tables_read_back(sorted);
}

proof fn ascending_lists_agree(a: Seq<DefView>, b: Seq<DefView>)
    requires
        defs::keys_ascend(a),
        defs::keys_ascend(b),
        keys_apart(a),
        keys_apart(b),
        a.to_multiset() == b.to_multiset(),
    ensures
        a == b,
    decreases a.len(),
{
    broadcast use vstd::seq_lib::group_to_multiset_ensures;

    assert(a.len() == a.to_multiset().len() && b.len() == b.to_multiset().len());
    if a.len() == 0 {
        assert(a =~= b);
    } else {
        let (x, y) = (a.last(), b.last());
        assert(a[a.len() - 1] == x && b[b.len() - 1] == y);
        assert(a.contains(x) && b.contains(y));
        assert(a.to_multiset().contains(x) && b.to_multiset().contains(y));
        assert(b.contains(x) && a.contains(y));
        let i = choose|i: int| 0 <= i < b.len() && b[i] == x;
        let j = choose|j: int| 0 <= j < a.len() && a[j] == y;
        if i < b.len() - 1 && j < a.len() - 1 {
            assert(text::text_le(defs::file_key(b[i]), defs::file_key(b[b.len() - 1])));
            assert(text::text_le(defs::file_key(a[j]), defs::file_key(a[a.len() - 1])));
            text::text_order_is_antisymmetric(defs::file_key(x), defs::file_key(y));
            assert(defs::file_key(a[j]) != defs::file_key(a[a.len() - 1]));
        }
        assert(x == y);
        let (c, d) = (a.drop_last(), b.drop_last());
        assert(a =~= c.push(x) && b =~= d.push(x));
        assert(c.to_multiset() =~= a.to_multiset().remove(x));
        assert(d.to_multiset() =~= b.to_multiset().remove(x));
        assert forall|i: int, j: int| 0 <= i < j < c.len() implies text::text_le(
            defs::file_key(#[trigger] c[i]),
            defs::file_key(#[trigger] c[j]),
        ) && defs::file_key(c[i]) != defs::file_key(c[j]) by {
            assert(c[i] == a[i] && c[j] == a[j]);
        }
        assert forall|i: int, j: int| 0 <= i < j < d.len() implies text::text_le(
            defs::file_key(#[trigger] d[i]),
            defs::file_key(#[trigger] d[j]),
        ) && defs::file_key(d[i]) != defs::file_key(d[j]) by {
            assert(d[i] == b[i] && d[j] == b[j]);
        }
        ascending_lists_agree(c, d);
    }
}

proof fn same_definitions_same_keys_apart(a: Seq<DefView>, b: Seq<DefView>)
    requires
        keys_apart(a),
        a.to_multiset() == b.to_multiset(),
    ensures
        keys_apart(b),
    decreases b.len(),
{
    broadcast use vstd::seq_lib::group_to_multiset_ensures;

    assert forall|i: int, j: int| 0 <= i < j < b.len() implies defs::file_key(#[trigger] b[i])
        != defs::file_key(#[trigger] b[j]) by {
        if defs::file_key(b[i]) == defs::file_key(b[j]) {
            assert(b.contains(b[i]) && b.contains(b[j]));
            assert(b.to_multiset().contains(b[i]) && b.to_multiset().contains(b[j]));
            assert(a.contains(b[i]) && a.contains(b[j]));
            let k = choose|k: int| 0 <= k < a.len() && a[k] == b[i];
            let l = choose|l: int| 0 <= l < a.len() && a[l] == b[j];
            if k < l {
                assert(defs::file_key(a[k]) != defs::file_key(a[l]));
            } else if l < k {
                assert(defs::file_key(a[l]) != defs::file_key(a[k]));
            }
            no_definition_comes_twice(a, b, i, j);
        }
    }
}

proof fn no_definition_comes_twice(a: Seq<DefView>, b: Seq<DefView>, i: int, j: int)
    requires
        keys_apart(a),
        a.to_multiset() == b.to_multiset(),
        0 <= i < j < b.len(),
    ensures
        b[i] != b[j],
{
    broadcast use vstd::seq_lib::group_to_multiset_ensures;

    if b[i] == b[j] {
        let d = b[i];
        let less = b.remove(j);
        assert(less[i] == d);
        assert(less.contains(d));
        assert(less.to_multiset() =~= b.to_multiset().remove(d));
        assert(less.to_multiset().count(d) > 0);
        assert(a.to_multiset().count(d) > 1);
        assert(a.contains(d));
        let k = choose|k: int| 0 <= k < a.len() && a[k] == d;
        let rest = a.remove(k);
        assert(rest.to_multiset() =~= a.to_multiset().remove(d));
        assert(rest.to_multiset().count(d) > 0);
        assert(rest.contains(d));
        let l = choose|l: int| 0 <= l < rest.len() && rest[l] == d;
        if l < k {
            assert(a[l] == d);
            assert(defs::file_key(a[l]) != defs::file_key(a[k]));
        } else {
            assert(a[l + 1] == d);
            assert(defs::file_key(a[k]) != defs::file_key(a[l + 1]));
        }
    }
}

/// The file does not depend on the order in which the definitions come, as long
/// as no two have the same key.
pub proof fn the_file_does_not_depend_on_the_order(a: Seq<DefView>, b: Seq<DefView>)
    requires
        keys_apart(a),
        a.to_multiset() == b.to_multiset(),
    ensures
        defs::definitions_file(a) == defs::definitions_file(b),
{
    same_definitions_same_keys_apart(a, b);
    defs::key_order_is_a_permutation(a);
    defs::key_order_is_a_permutation(b);
    ordering_keeps_keys_apart(a);
    ordering_keeps_keys_apart(b);
    ascending_lists_agree(defs::in_key_order(a), defs::in_key_order(b));
}

} // verus!
