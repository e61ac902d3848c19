//! Key names and the namespace flag.

use cache_warden_cli::namespace::{
    compose, qualify, resolve_namespace, split_composed, take_namespace_flag, validate_identifier,
    is_valid_identifier, DEFAULT_NAMESPACE,
};

fn s(parts: &[&str]) -> Vec<String> {
    parts.iter().map(|p| p.to_string()).collect()
}

// ---- identifier charset ----

#[test]
fn identifier_accepts_alnum_underscore() {
    for ok in ["DB_PASSWORD", "a", "_x", "A1", "default", "projA_2"] {
        assert!(is_valid_identifier(ok), "{ok:?} must be valid");
    }
}

#[test]
fn identifier_rejects_dot_dash_slash_empty_and_unicode() {
    for bad in ["", "a.b", "a-b", "a/b", "a b", "a:b", "日本語", "--weird"] {
        assert!(!is_valid_identifier(bad), "{bad:?} must be invalid");
    }
}

#[test]
fn validate_identifier_names_the_what_in_the_error() {
    let err = validate_identifier("a.b", "KEY").unwrap_err();
    assert!(err.contains("KEY"), "msg: {err}");
    assert!(err.contains("A-Za-z0-9_"), "msg: {err}");
}

// ---- compose / split / qualify ----

#[test]
fn compose_and_split_round_trip() {
    let k = compose("projA", "DB");
    assert_eq!(k, "projA/DB");
    assert_eq!(split_composed(&k), Some(("projA", "DB")));
}

#[test]
fn split_composed_rejects_malformed() {
    for bad in ["plain", "a/b/c", "/k", "ns/", "a.b/c", "a/b.c", ""] {
        assert_eq!(split_composed(bad), None, "{bad:?} must not split");
    }
}

#[test]
fn qualify_unqualified_uses_context_qualified_is_absolute() {
    // `bar` in ctx `foo` -> foo/bar; `hoge/fuga` stays as-is.
    assert_eq!(qualify("bar", "foo"), "foo/bar");
    assert_eq!(qualify("hoge/fuga", "foo"), "hoge/fuga");
}

// ---- --namespace flag ----

#[test]
fn take_namespace_flag_space_and_equals_forms() {
    let (ns, rest) = take_namespace_flag(&s(&["--namespace", "projA", "K"])).unwrap();
    assert_eq!(ns.as_deref(), Some("projA"));
    assert_eq!(rest, s(&["K"]));

    let (ns, rest) = take_namespace_flag(&s(&["K", "--namespace=projB"])).unwrap();
    assert_eq!(ns.as_deref(), Some("projB"));
    assert_eq!(rest, s(&["K"]));
}

#[test]
fn take_namespace_flag_absent_is_none() {
    let (ns, rest) = take_namespace_flag(&s(&["K"])).unwrap();
    assert_eq!(ns, None);
    assert_eq!(rest, s(&["K"]));
}

#[test]
fn take_namespace_flag_validates_charset() {
    assert!(take_namespace_flag(&s(&["--namespace", "a/b"])).is_err());
    assert!(take_namespace_flag(&s(&["--namespace", "a.b"])).is_err());
    assert!(take_namespace_flag(&s(&["--namespace"])).is_err());
}

#[test]
fn take_namespace_flag_conflicting_values_error() {
    assert!(take_namespace_flag(&s(&["--namespace", "a", "--namespace", "b"])).is_err());
    // The same value twice is harmless.
    let (ns, _) = take_namespace_flag(&s(&["--namespace", "a", "--namespace", "a"])).unwrap();
    assert_eq!(ns.as_deref(), Some("a"));
}

#[test]
fn take_namespace_flag_stops_at_double_dash() {
    let (ns, rest) = take_namespace_flag(&s(&["--", "--namespace", "x"])).unwrap();
    assert_eq!(ns, None);
    assert_eq!(rest, s(&["--", "--namespace", "x"]));
}

// ---- precedence chain ----

#[test]
fn resolve_namespace_flag_wins_then_env_then_config_then_default() {
    let r = |f: Option<&str>, e: Option<&str>, c: Option<&str>| {
        resolve_namespace(
            f.map(String::from),
            e.map(String::from),
            c.map(String::from),
        )
    };
    assert_eq!(r(Some("f"), Some("e"), Some("c")).unwrap(), "f");
    assert_eq!(r(None, Some("e"), Some("c")).unwrap(), "e");
    assert_eq!(r(None, None, Some("c")).unwrap(), "c");
    assert_eq!(r(None, None, None).unwrap(), DEFAULT_NAMESPACE);
}

#[test]
fn resolve_namespace_validates_every_tier() {
    assert!(resolve_namespace(Some("a/b".into()), None, None).is_err());
    assert!(resolve_namespace(None, Some("a.b".into()), None).is_err());
    assert!(resolve_namespace(None, None, Some("a-b".into())).is_err());
}

#[test]
fn a_second_scan_finds_nothing_more() {
    let args: Vec<String> = ["set", "--namespace", "ns", "K", "--namespace=ns", "--", "--namespace"]
        .iter()
        .map(|a| a.to_string())
        .collect();
    let (ns, rest) = take_namespace_flag(&args).unwrap();
    assert_eq!(ns.as_deref(), Some("ns"));
    assert_eq!(rest, ["set", "K", "--", "--namespace"]);
    assert_eq!(take_namespace_flag(&rest), Ok((None, rest.clone())));
}
