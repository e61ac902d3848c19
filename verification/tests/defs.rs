//! Definition files and the persisted definitions, from TOML text to
//! definitions and back.

use std::collections::BTreeMap;

use cache_warden_cli::config::{
    build_kv_meta, entry_error, find_param, parse_duration, split_kv_entry_name, ConfigError,
    KvDefinition,
};
use cache_warden_cli::daemon::handler::ValueMeta;
use cache_warden_cli::defs;
use cache_warden_cli::defs::{
    copy_definition, definitions_state_path, load_definitions, meta_to_wire, parse_defs_file,
    serialize_definitions, snapshot_definitions, toml_string_array, DefEntry, NamedEntry,
    PersistTable, PersistedFile, StoreKey, StoredDefinition,
};
use cache_warden_cli::wire::{CommandSpecWire, OpSpecWire, SourceSpecWire, ValueMetaWire};

fn no_meta() -> ValueMetaWire {
    ValueMetaWire { type_label: None, params: Vec::new() }
}

fn def(name: &str, argv: &[&str], soft: Option<u64>, hard: Option<u64>) -> KvDefinition {
    KvDefinition {
        name: name.to_string(),
        namespace: None,
        source: SourceSpecWire::command(argv.iter().map(|s| s.to_string()).collect()),
        soft_ttl_secs: soft,
        hard_ttl_secs: hard,
        preload: false,
        meta: no_meta(),
    }
}

fn empty_entry() -> DefEntry {
    DefEntry {
        command: None,
        soft_ttl: None,
        hard_ttl: None,
        value_type: None,
        otp_digits: None,
        otp_period: None,
        otp_algorithm: None,
        namespace: None,
        has_preload: false,
        has_value: false,
        has_value_stdin: false,
        has_static: false,
    }
}

fn string_of(value: &toml::Value) -> Result<String, String> {
    value.as_str().map(|s| s.to_string()).ok_or_else(|| "expected a string".to_string())
}

fn number_of(value: &toml::Value) -> Result<u64, String> {
    value
        .as_integer()
        .and_then(|n| u64::try_from(n).ok())
        .ok_or_else(|| "expected a number".to_string())
}

/// The fields of one table; a field without a place in it is refused.
fn entry_of(value: &toml::Value) -> Result<DefEntry, String> {
    let table = value.as_table().ok_or_else(|| "expected a table".to_string())?;
    let mut entry = empty_entry();
    for (field, v) in table {
        match field.as_str() {
            "command" => {
                let items = v.as_array().ok_or_else(|| "expected an array".to_string())?;
                let argv: Result<Vec<String>, String> = items.iter().map(string_of).collect();
                entry.command = Some(argv?);
            }
            "soft-ttl" => entry.soft_ttl = Some(string_of(v)?),
            "hard-ttl" => entry.hard_ttl = Some(string_of(v)?),
            "type" => entry.value_type = Some(string_of(v)?),
            "otp-digits" => {
                let n = u32::try_from(number_of(v)?).map_err(|e| e.to_string())?;
                entry.otp_digits = Some(n);
            }
            "otp-period" => entry.otp_period = Some(number_of(v)?),
            "otp-algorithm" => entry.otp_algorithm = Some(string_of(v)?),
            "namespace" => entry.namespace = Some(string_of(v)?),
            "preload" => entry.has_preload = true,
            "value" => entry.has_value = true,
            "value-stdin" => entry.has_value_stdin = true,
            "static" => entry.has_static = true,
            other => return Err(format!("unknown field `{other}`")),
        }
    }
    Ok(entry)
}

/// The `[kv]` table of a document.
fn kv_table(text: &str) -> Result<toml::Table, String> {
    let document: toml::Table = toml::from_str(text).map_err(|e| e.to_string())?;
    let mut kv = toml::Table::new();
    for (field, v) in document {
        match v {
            toml::Value::Table(t) if field == "kv" => kv = t,
            _ => return Err(format!("unknown field `{field}`")),
        }
    }
    Ok(kv)
}

fn entries_of(table: &toml::Table) -> Result<Vec<NamedEntry>, String> {
    table
        .iter()
        .map(|(name, v)| Ok(NamedEntry { name: name.clone(), entry: entry_of(v)? }))
        .collect()
}

fn def_tables(text: &str) -> Result<Vec<NamedEntry>, String> {
    entries_of(&kv_table(text)?)
}

fn persist_tables(text: &str) -> Result<Vec<PersistTable>, String> {
    let mut out = Vec::new();
    for (ns, v) in &kv_table(text)? {
        let table = v.as_table().ok_or_else(|| "expected a table".to_string())?;
        out.push(PersistTable { namespace: ns.clone(), entries: entries_of(table)? });
    }
    Ok(out)
}

fn parse_defs(text: &str) -> Result<Vec<KvDefinition>, ConfigError> {
    defs::parse_defs(def_tables(text))
}

fn parse_persisted(text: &str) -> Result<Vec<KvDefinition>, ConfigError> {
    defs::parse_persisted(persist_tables(text))
}

fn param(meta: &ValueMetaWire, name: &str) -> Option<String> {
    find_param(&meta.params, name)
}

// ---- parse_defs ----

#[test]
fn parses_a_single_command_entry_with_ttls() {
    let defs = parse_defs(
        r#"[kv.DB_PASSWORD]
command = ["op", "read", "op://vault/item/password"]
soft-ttl = "1h"
hard-ttl = "24h"
"#,
    )
    .unwrap();
    assert_eq!(defs.len(), 1);
    let d = &defs[0];
    assert_eq!(d.name, "DB_PASSWORD");
    assert_eq!(d.source.argv(), vec!["op", "read", "op://vault/item/password"]);
    assert_eq!(d.soft_ttl_secs, Some(3600));
    assert_eq!(d.hard_ttl_secs, Some(86400));
    assert!(!d.preload, "defs definitions are always lazy");
}

#[test]
fn parses_multiple_entries_name_sorted() {
    let defs = parse_defs(
        r#"[kv.B]
command = ["echo", "b"]

[kv.A]
command = ["echo", "a"]
"#,
    )
    .unwrap();
    let names: Vec<_> = defs.iter().map(|d| d.name.clone()).collect();
    assert_eq!(names, vec!["A", "B"]);
}

#[test]
fn empty_file_parses_to_no_definitions() {
    assert!(parse_defs("").unwrap().is_empty());
}

#[test]
fn preload_in_defs_is_rejected() {
    let err = parse_defs(
        r#"[kv.X]
command = ["echo", "x"]
preload = true
"#,
    )
    .unwrap_err();
    assert!(err.message.contains("preload"), "msg: {}", err.message);
}

#[test]
fn inline_value_in_defs_is_rejected_and_not_echoed() {
    let err = parse_defs(
        r#"[kv.SECRET]
value = "hunter2"
"#,
    )
    .unwrap_err();
    assert!(err.message.contains("not allowed"), "msg: {}", err.message);
    assert!(
        !err.message.contains("hunter2"),
        "must not echo the secret: {}",
        err.message
    );
}

#[test]
fn missing_command_is_rejected() {
    let err = parse_defs(
        r#"[kv.X]
soft-ttl = "1h"
"#,
    )
    .unwrap_err();
    assert!(err.message.contains("requires a `command`"));
}

#[test]
fn empty_command_is_rejected() {
    let err = parse_defs(
        r#"[kv.X]
command = []
"#,
    )
    .unwrap_err();
    assert!(err.message.contains("must not be empty"));
}

#[test]
fn bad_ttl_is_rejected_naming_the_field() {
    let err = parse_defs(
        r#"[kv.X]
command = ["echo", "x"]
soft-ttl = "1day"
"#,
    )
    .unwrap_err();
    assert!(err.message.contains("soft-ttl"), "msg: {}", err.message);
}

#[test]
fn unknown_field_is_rejected() {
    let err = parse_defs(
        r#"[kv.X]
command = ["echo", "x"]
bogus = 1
"#,
    )
    .unwrap_err();
    assert!(err.message.contains("invalid TOML"), "msg: {}", err.message);
}

#[test]
fn syntax_error_is_reported() {
    assert!(parse_defs("not = valid = toml").is_err());
}

// ---- value type ----

#[test]
fn parses_an_otp_typed_entry_with_params() {
    let defs = parse_defs(
        r#"[kv.OTP]
command = ["op", "read", "op://vault/item/field"]
type = "otp"
otp-digits = 8
otp-period = 60
otp-algorithm = "SHA256"
"#,
    )
    .unwrap();
    assert_eq!(defs.len(), 1);
    let d = &defs[0];
    assert_eq!(d.meta.type_label.as_deref(), Some("otp"));
    assert_eq!(param(&d.meta, "digits").as_deref(), Some("8"));
    assert_eq!(param(&d.meta, "period").as_deref(), Some("60"));
    // Algorithm normalized to lowercase.
    assert_eq!(
        param(&d.meta, "algorithm").as_deref(),
        Some("sha256")
    );
}

#[test]
fn otp_params_without_type_are_rejected() {
    let err = parse_defs(
        r#"[kv.X]
command = ["echo", "x"]
otp-digits = 8
"#,
    )
    .unwrap_err();
    assert!(
        err.message.contains("type = \"otp\""),
        "msg: {}",
        err.message
    );
}

#[test]
fn unknown_type_in_defs_is_rejected() {
    let err = parse_defs(
        r#"[kv.X]
command = ["echo", "x"]
type = "magic"
"#,
    )
    .unwrap_err();
    assert!(
        err.message.contains("unknown `type`"),
        "msg: {}",
        err.message
    );
}

#[test]
fn otp_typed_definition_round_trips_through_serialize() {
    // A serialized otp definition parses back to the same meta.
    let mut d = def("OTP", &["op", "read", "op://v/i/f"], Some(3600), None);
    d.meta = ValueMetaWire {
        type_label: Some("otp".to_string()),
        params: BTreeMap::from([
            ("digits".to_string(), "8".to_string()),
            ("algorithm".to_string(), "sha512".to_string()),
        ])
        .into_iter()
        .collect(),
    };
    let text = serialize_definitions(std::slice::from_ref(&d));
    assert!(text.contains("type = \"otp\""), "text: {text}");
    assert!(text.contains("otp-digits = 8"), "text: {text}");
    let back = parse_persisted(&text).unwrap();
    // Persisted entries come back with an absolute namespace (the dotted
    // table path); the composed key round-trips exactly.
    assert_eq!(back[0].full_key("ignored"), d.full_key("default"));
    assert_eq!(back[0].meta, d.meta, "otp meta round-trips");
}

// ---- serialize / round-trip ----

#[test]
fn serialize_then_parse_round_trips() {
    let defs = vec![
        def("A", &["op", "read", "op://a"], Some(3600), Some(86400)),
        def("B", &["printf", "x"], None, None),
    ];
    let text = serialize_definitions(&defs);
    let back = parse_persisted(&text).unwrap();
    assert_eq!(back.len(), 2);
    // The persisted form pins the absolute namespace; the composed key,
    // argv, and TTLs round-trip exactly.
    for (b, d) in back.iter().zip(defs.iter()) {
        assert_eq!(b.full_key("ignored"), d.full_key("default"));
        assert_eq!(b.source, d.source);
        assert_eq!(b.soft_ttl_secs, d.soft_ttl_secs);
        assert_eq!(b.hard_ttl_secs, d.hard_ttl_secs);
    }
}

#[test]
fn serialize_is_name_sorted_and_value_free() {
    let defs = vec![
        def("ZED", &["echo", "z"], None, None),
        def("ABLE", &["echo", "a"], Some(60), None),
    ];
    let text = serialize_definitions(&defs);
    // Dotted nested tables (no quoting needed: the charset has no `.`),
    // name-sorted: ABLE before ZED.
    let able = text.find("[kv.default.ABLE]").expect("ABLE table");
    let zed = text.find("[kv.default.ZED]").expect("ZED table");
    assert!(able < zed, "name-sorted: {text}");
    // No value field can ever appear.
    assert!(!text.contains("value"));
    // And no quoted table names: the identifier charset
    // makes every segment a TOML bare key.
    assert!(!text.contains('"') || !text.contains("[kv.\""), "{text}");
}

#[test]
fn serialize_writes_dotted_nested_tables() {
    // The persisted format is the uniform two-level dotted nesting
    // `[kv.NS.KEY]`: the identifier charset has no `.`, so
    // every segment is a bare key (no quoting) and the path depth is
    // unambiguous. It parses back to the same key + absolute namespace.
    let mut d = def("c", &["echo"], None, None);
    d.namespace = Some("projA".into());
    let text = serialize_definitions(std::slice::from_ref(&d));
    assert!(text.contains("[kv.projA.c]"), "text: {text}");
    let back = parse_persisted(&text).unwrap();
    assert_eq!(back[0].name, "c");
    assert_eq!(back[0].namespace.as_deref(), Some("projA"));
}

#[test]
fn serialize_same_key_in_two_namespaces_coexists() {
    // The whole point of the nesting: the same KEY under two namespaces is
    // two distinct tables (impossible as flat `[kv.KEY]`).
    let mut a = def("DB", &["echo", "a"], None, None);
    a.namespace = Some("projA".into());
    let mut b = def("DB", &["echo", "b"], None, None);
    b.namespace = Some("projB".into());
    let text = serialize_definitions(&[a, b]);
    assert!(text.contains("[kv.projA.DB]"), "{text}");
    assert!(text.contains("[kv.projB.DB]"), "{text}");
    let back = parse_persisted(&text).unwrap();
    assert_eq!(back.len(), 2);
    let keys: Vec<String> = back.iter().map(|d| d.full_key("ignored")).collect();
    assert_eq!(keys, vec!["projA/DB", "projB/DB"]);
}

#[test]
fn persisted_parser_rejects_flat_entries() {
    // The persisted grammar is uniformly two-level; a flat `[kv.KEY]`
    // table (the user-defs shape) does not parse.
    let err = parse_persisted("[kv.K]\ncommand = [\"echo\"]\n").unwrap_err();
    assert!(err.message.contains("invalid TOML"), "msg: {}", err.message);
}

#[test]
fn persisted_parser_rejects_namespace_field() {
    // In the persisted format the namespace IS the table path; a stray
    // per-entry `namespace` field is ambiguous and refused.
    let err = parse_persisted("[kv.projA.K]\nnamespace = \"projB\"\ncommand = [\"echo\"]\n")
        .unwrap_err();
    assert!(err.message.contains("namespace"), "msg: {}", err.message);
}

#[test]
fn persisted_parser_validates_segment_charset() {
    // Quoted segments outside the identifier charset are rejected even
    // though TOML can express them.
    assert!(parse_persisted("[kv.\"a-b\".K]\ncommand = [\"echo\"]\n").is_err());
    assert!(parse_persisted("[kv.NS.\"a.b\"]\ncommand = [\"echo\"]\n").is_err());
}

#[test]
fn user_defs_parser_rejects_quoted_composed_table_names() {
    // The old persisted shape (`[kv."NS/KEY"]`) is gone: a user-defs table
    // name is a plain identifier; the namespace travels in the per-entry
    // field only.
    let err = parse_defs("[kv.\"projA/c\"]\ncommand = [\"echo\"]\n").unwrap_err();
    assert!(err.message.contains("A-Za-z0-9_"), "msg: {}", err.message);
}

#[test]
fn user_defs_parser_rejects_dotted_nesting() {
    // The user-facing defs grammar stays flat `[kv.NAME]` (+ optional
    // per-entry `namespace` field); the persisted nesting is not valid
    // there (the shapes stay distinct on purpose).
    assert!(parse_defs("[kv.NS.KEY]\ncommand = [\"echo\"]\n").is_err());
}

#[test]
fn serialize_escapes_quotes_in_argv() {
    let defs = vec![def("K", &["echo", "a\"b"], None, None)];
    let text = serialize_definitions(&defs);
    let back = parse_persisted(&text).unwrap();
    assert_eq!(back[0].source.argv(), vec!["echo", "a\"b"]);
}

// ---- load / save ----

#[test]
fn load_missing_file_is_empty_not_error() {
    let loaded = load_definitions("/state/definitions.toml", PersistedFile::Missing);
    assert!(loaded.unwrap().is_empty());
}

#[test]
fn save_then_load_round_trips() {
    let defs = vec![
        def("A", &["op", "read", "op://a"], Some(3600), Some(86400)),
        def("B", &["printf", "x"], None, None),
    ];
    let saved = serialize_definitions(&defs);
    let file = PersistedFile::Read(persist_tables(&saved));
    let back = load_definitions("/state/definitions.toml", file).unwrap();
    assert_eq!(back.len(), defs.len());
    for (b, d) in back.iter().zip(defs.iter()) {
        assert_eq!(b.full_key("ignored"), d.full_key("default"));
        assert_eq!(b.source, d.source);
        assert_eq!(b.soft_ttl_secs, d.soft_ttl_secs);
        assert_eq!(b.hard_ttl_secs, d.hard_ttl_secs);
    }
}

#[test]
fn save_empty_definitions_writes_empty_file() {
    assert_eq!(serialize_definitions(&[]), "");
    let file = PersistedFile::Read(persist_tables(""));
    assert!(load_definitions("/state/definitions.toml", file).unwrap().is_empty());
}

#[test]
fn a_persisted_file_that_cannot_be_read_is_named() {
    assert_eq!(
        load_definitions("/state/d.toml", PersistedFile::Failed("denied".into())),
        Err("cannot read persisted definitions /state/d.toml: denied".to_string())
    );
    assert_eq!(
        load_definitions("/state/d.toml", PersistedFile::Read(Err("at line 1".into()))),
        Err("invalid persisted definitions /state/d.toml: invalid TOML: at line 1".to_string())
    );
}

#[test]
fn a_defs_file_that_cannot_be_read_is_named() {
    assert_eq!(
        parse_defs_file("defs.toml", Err("not found".into())),
        Err("cannot read defs file defs.toml: not found".to_string())
    );
    assert_eq!(
        parse_defs_file("defs.toml", Ok(def_tables("[kv.X]\ncommand = []\n"))),
        Err("invalid defs file defs.toml: [kv.X]: `command` must not be empty".to_string())
    );
    let read = Ok(def_tables("[kv.X]\ncommand = [\"a\"]\n"));
    assert_eq!(parse_defs_file("defs.toml", read), Ok(vec![def("X", &["a"], None, None)]));
}

// ---- snapshot_definitions ----

fn store_key(key: &str, argv: &[&str], soft: Option<u64>, hard: Option<u64>) -> StoreKey {
    StoreKey {
        key: key.to_string(),
        definition: Some(StoredDefinition {
            command: Some(argv.iter().map(|s| s.to_string()).collect()),
            soft_ttl_secs: soft,
            hard_ttl_secs: hard,
            meta: ValueMeta { type_label: None, params: Vec::new() },
        }),
    }
}

#[test]
fn snapshot_returns_only_definitions_name_sorted() {
    let store = [
        store_key("default/ZED", &["op", "read", "op://z"], Some(3600), Some(86400)),
        store_key("default/ABLE", &["printf", "x"], None, None),
        // A static value-only entry must NOT appear in the snapshot.
        StoreKey { key: "default/STATIC".into(), definition: None },
    ];
    let snap = snapshot_definitions(&store);
    let names: Vec<_> = snap.iter().map(|d| d.name.clone()).collect();
    assert_eq!(names, vec!["ABLE", "ZED"], "only definitions, name-sorted");
    // The store's composed key splits into (namespace, name).
    assert!(snap.iter().all(|d| d.namespace.as_deref() == Some("default")));
    let zed = snap.iter().find(|d| d.name == "ZED").unwrap();
    assert_eq!(zed.source.argv(), vec!["op", "read", "op://z"]);
    assert_eq!(zed.soft_ttl_secs, Some(3600));
    assert_eq!(zed.hard_ttl_secs, Some(86400));
}

#[test]
fn snapshot_round_trips_through_serialize() {
    let snap = snapshot_definitions(&[store_key("default/K", &["echo", "x"], None, None)]);
    let back = parse_persisted(&serialize_definitions(&snap)).unwrap();
    assert_eq!(back, snap);
}

#[test]
fn snapshot_skips_what_has_no_place_in_the_file() {
    let mut sourceless = store_key("default/A", &["a"], None, None);
    sourceless.definition.as_mut().unwrap().command = None;
    let internal = store_key("internal", &["a"], None, None);
    assert!(snapshot_definitions(&[sourceless, internal]).is_empty());
}

#[test]
fn state_path_uses_xdg_state_home() {
    assert_eq!(
        definitions_state_path(Some("/tmp/xdgstate"), Some("/home/u")),
        "/tmp/xdgstate/cache-warden/definitions.toml"
    );
    let fallback = "/home/u/.local/state/cache-warden/definitions.toml";
    assert_eq!(definitions_state_path(None, Some("/home/u")), fallback);
    assert_eq!(definitions_state_path(Some(""), Some("/home/u/")), fallback);
    assert_eq!(
        definitions_state_path(None, None),
        ".local/state/cache-warden/definitions.toml"
    );
}

// ---- the parts ----

#[test]
fn what_does_not_belong_in_a_defs_file_is_refused() {
    let refusal = |change: &dyn Fn(&mut DefEntry)| {
        let mut entry = empty_entry();
        entry.command = Some(vec!["echo".into()]);
        change(&mut entry);
        entry.validate("X").unwrap_err().message
    };
    assert_eq!(
        refusal(&|e| e.has_value = true),
        "[kv.X]: inline `value` is not allowed — defs files declare regenerable command definitions only, never literal secrets"
    );
    assert_eq!(
        refusal(&|e| e.has_value_stdin = true),
        "[kv.X]: `value-stdin` is not a defs key — pipe literal values in at runtime (`... | cache-warden kv set X`)"
    );
    assert_eq!(
        refusal(&|e| e.has_static = true),
        "[kv.X]: a `static` source cannot be defined — only `command` entries may be defined"
    );
    assert_eq!(
        refusal(&|e| e.has_preload = true),
        "[kv.X]: `preload` is not allowed in a defs file — it is a config-only startup flag; defs definitions are always lazy"
    );
    assert!(refusal(&|e| e.hard_ttl = Some("x".into())).starts_with("[kv.X]: hard-ttl: "));
    assert!(refusal(&|e| e.namespace = Some("a-b".into())).contains("A-Za-z0-9_"));
}

#[test]
fn the_first_complaint_is_the_one_that_is_reported() {
    let err = parse_defs("[kv.A]\ncommand = []\n\n[kv.B]\nvalue = 1\n").unwrap_err();
    assert_eq!(err.message, "[kv.A]: `command` must not be empty");
}

#[test]
fn a_definition_is_written_field_by_field() {
    let mut d = def("K", &["a", "b\\c"], Some(60), Some(120));
    d.namespace = Some("n".into());
    d.meta = build_kv_meta("K", &Some("otp".into()), Some(6), Some(30), &Some("SHA1".into()))
        .unwrap();
    assert_eq!(
        serialize_definitions(&[d]),
        "[kv.n.K]\ncommand = [\"a\", \"b\\\\c\"]\nsoft-ttl = \"60s\"\nhard-ttl = \"120s\"\ntype = \"otp\"\notp-digits = 6\notp-period = 30\notp-algorithm = \"sha1\"\n"
    );
}

#[test]
fn tables_are_parted_by_one_blank_line() {
    let defs = [def("B", &["b"], None, None), def("A", &["a"], None, None)];
    assert_eq!(
        serialize_definitions(&defs),
        "[kv.default.A]\ncommand = [\"a\"]\n\n[kv.default.B]\ncommand = [\"b\"]\n"
    );
}

#[test]
fn argument_vectors_are_arrays_of_basic_strings() {
    assert_eq!(toml_string_array(&[]), "[]");
    let argv = ["a\"b".to_string(), "c\\d".to_string(), "e".to_string()];
    let text = toml_string_array(&argv);
    assert_eq!(text, "[\"a\\\"b\", \"c\\\\d\", \"e\"]");
    let document: toml::Table = toml::from_str(&format!("x = {text}")).unwrap();
    let back: Vec<&str> =
        document["x"].as_array().unwrap().iter().map(|v| v.as_str().unwrap()).collect();
    assert_eq!(back, argv);
}

#[test]
fn control_characters_are_written_by_their_numbers() {
    assert_eq!(toml_string_array(&["a\nb".to_string()]), "[\"a\\u000Ab\"]");
    assert_eq!(toml_string_array(&["\u{7f}\t\u{1f}".to_string()]), "[\"\\u007F\t\\u001F\"]");
    // Every character there is below the letters, and some beyond.
    let all: String = (0u8..128).map(char::from).chain("é\u{85}\u{10ffff}".chars()).collect();
    let argv = [all.clone(), "x\r\n".to_string()];
    let document: toml::Table =
        toml::from_str(&format!("x = {}", toml_string_array(&argv))).unwrap();
    let back: Vec<&str> =
        document["x"].as_array().unwrap().iter().map(|v| v.as_str().unwrap()).collect();
    assert_eq!(back, argv);
    let saved = serialize_definitions(&[def("K", &["printf", &all], None, None)]);
    assert_eq!(parse_persisted(&saved).unwrap()[0].source.argv(), vec!["printf".to_string(), all]);
}

#[test]
fn the_persisted_file_does_not_depend_on_the_order() {
    let a = def("A", &["a"], None, Some(5));
    let b = def("B", &["b"], Some(1), None);
    let one = serialize_definitions(&[copy_definition(&a), copy_definition(&b)]);
    assert_eq!(one, serialize_definitions(&[b, a]));
}

#[test]
fn every_persisted_definition_comes_back_in_key_order() {
    let mut typed = def("Z", &["a \t\\\"", "é"], Some(1), Some(2));
    typed.meta =
        build_kv_meta("Z", &Some("otp".into()), Some(8), Some(60), &Some("SHA512".into())).unwrap();
    let mut pinned = def("A", &["b"], None, Some(0));
    pinned.namespace = Some("a_ns".into());
    let back = parse_persisted(&serialize_definitions(&[typed.clone(), pinned.clone()])).unwrap();
    typed.namespace = Some("default".into());
    assert_eq!(back, vec![pinned, typed]);
}

#[test]
fn durations_take_one_unit() {
    assert_eq!(parse_duration("30s"), Ok(30));
    assert_eq!(parse_duration("2m"), Ok(120));
    assert_eq!(parse_duration("1h"), Ok(3600));
    assert_eq!(parse_duration("90"), Ok(90));
    assert_eq!(
        parse_duration("1d"),
        Err("invalid duration \"1d\" (use e.g. 1h, 30m, 45s or bare seconds)".to_string())
    );
    assert!(parse_duration("").is_err());
    assert!(parse_duration("h").is_err());
    assert!(parse_duration("1 h").is_err());
    assert!(parse_duration("99999999999999999999s").is_err());
}

#[test]
fn names_of_entries_are_identifiers() {
    assert_eq!(
        split_kv_entry_name("K", &Some("n".into())),
        Ok(("K".to_string(), Some("n".to_string())))
    );
    assert_eq!(split_kv_entry_name("K", &None), Ok(("K".to_string(), None)));
    assert!(split_kv_entry_name("n/K", &None).is_err());
    assert!(split_kv_entry_name("K", &Some("n/m".into())).is_err());
    assert_eq!(entry_error("K", "odd").message, "[kv.K]: odd");
}

#[test]
fn a_key_follows_the_context_unless_it_is_pinned() {
    let mut d = def("K", &["a"], None, None);
    assert_eq!(d.full_key("ctx"), "ctx/K");
    d.namespace = Some("n".into());
    assert_eq!(d.full_key("ctx"), "n/K");
    assert_eq!(copy_definition(&d), d);
}

#[test]
fn metadata_reaches_the_wire_unchanged() {
    let params = vec![("digits".to_string(), "8".to_string())];
    let wire = meta_to_wire(ValueMeta { type_label: Some("otp".into()), params: params.clone() });
    assert_eq!(wire, ValueMetaWire { type_label: Some("otp".into()), params });
    assert_eq!(param(&wire, "digits"), Some("8".to_string()));
    assert_eq!(param(&wire, "period"), None);
}

#[test]
fn a_source_comes_down_to_the_command_that_it_runs() {
    let typed = SourceSpecWire::Command {
        command: CommandSpecWire {
            argv: vec!["make".into(), "token".into()],
            cwd: Some("/src".into()),
            env: vec![("A".into(), "b".into())],
        },
    };
    let op = SourceSpecWire::Op { op: OpSpecWire { uri: "op://v/i".into(), account: None } };
    assert_eq!(typed.argv(), vec!["make", "token"]);
    assert_eq!(op.argv(), vec!["op", "read", "op://v/i"]);
    assert_eq!(defs::copy_source(&typed), typed);
    assert_eq!(defs::copy_source(&op), op);
    let saved = serialize_definitions(&[
        KvDefinition { source: typed, ..def("A", &[], None, None) },
        KvDefinition { source: op, ..def("B", &[], None, None) },
    ]);
    let back = parse_persisted(&saved).unwrap();
    assert_eq!(back[0].source, SourceSpecWire::command(vec!["make".into(), "token".into()]));
    let read = vec!["op".into(), "read".into(), "op://v/i".into()];
    assert_eq!(back[1].source, SourceSpecWire::command(read));
}
