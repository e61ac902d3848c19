//! Laws of keys, namespaces and the entries that define them.

use vstd::prelude::*;

use crate::cli;
use crate::config;
use crate::config::{ConfigError, KvDefinition};
use crate::namespace;
use crate::otp_type::OtpAlgorithm;
use crate::text;
use crate::wire::{SourceSpecWire, ValueMetaWire};

verus! {

/// A character that names are made of, by its code point: a digit, a letter or
/// `_`.
pub open spec fn is_name_char(c: char) -> bool {
    let p = c as u32;
    48 <= p <= 57 || 65 <= p <= 90 || 97 <= p <= 122 || p == 95
}

/// A text that is a name: not empty, and made of nothing else.
pub open spec fn is_name(s: Seq<char>) -> bool {
    s.len() > 0 && forall|i: int| 0 <= i < s.len() ==> is_name_char(#[trigger] s[i])
}

proof fn name_chars(c: char)
    ensures
        namespace::is_identifier_char(c) == is_name_char(c),
        c == '/' ==> !is_name_char(c),
{
}

pub(crate) proof fn names_are_identifiers(s: Seq<char>)
    ensures
        namespace::is_identifier(s) == is_name(s),
{
    assert forall|i: int| 0 <= i < s.len() implies namespace::is_identifier_char(#[trigger] s[i])
        == is_name_char(s[i]) by {
        name_chars(s[i]);
    }
    if namespace::is_identifier(s) {
        assert forall|i: int| 0 <= i < s.len() implies is_name_char(#[trigger] s[i]) by {
            assert(namespace::is_identifier_char(s[i]));
        }
    }
    if is_name(s) {
        assert forall|i: int| 0 <= i < s.len() implies namespace::is_identifier_char(
            #[trigger] s[i],
        ) by {
            assert(is_name_char(s[i]));
        }
    }
}

/// Names are recognized by their characters.
pub proof fn names_by_their_characters(s: &str, what: &str, r: bool, checked: Result<(), String>)
    requires
        call_ensures(namespace::is_valid_identifier, (s,), r),
        call_ensures(namespace::validate_identifier, (s, what), checked),
    ensures
        r <==> is_name(s@),
        checked is Ok <==> is_name(s@),
{
    names_are_identifiers(s@);
}

/// A composed key is the namespace, one `/` and the key, and comes apart into
/// exactly these; nothing else comes apart.
pub proof fn composed_keys_come_apart(
    ns: &str,
    key: &str,
    whole: String,
    s: &str,
    r: Option<(&str, &str)>,
)
    requires
        call_ensures(namespace::compose, (ns, key), whole),
        call_ensures(namespace::split_composed, (s,), r),
    ensures
        whole@ == ns@ + seq!['/'] + key@,
        s@ == whole@ && is_name(ns@) && is_name(key@) ==> (r matches Some((n, k)) && n@ == ns@ && k@
            == key@),
        r matches Some((n, k)) ==> is_name(n@) && is_name(k@) && s@ == n@ + seq!['/'] + k@,
{
    reveal_strlit("/");
    assert("/"@ =~= seq!['/']);
    names_are_identifiers(ns@);
    names_are_identifiers(key@);
    if s@ == whole@ && is_name(ns@) && is_name(key@) {
        namespace::composing_splits_back(ns@, key@);
    }
    if let Some((n, k)) = r {
        names_are_identifiers(n@);
        names_are_identifiers(k@);
    }
}

/// A reference with a `/` in it is absolute and stays as it is; any other is
/// taken in the namespace in force.
pub proof fn references_are_qualified(reference: &str, ns: &str, r: String)
    requires
        call_ensures(namespace::qualify, (reference, ns), r),
    ensures
        reference@.contains('/') ==> r@ == reference@,
        !reference@.contains('/') ==> r@ == ns@ + seq!['/'] + reference@,
{
    reveal_strlit("/");
    assert("/"@ =~= seq!['/']);
}

/// One namespace is the daemon's own.
pub proof fn the_daemons_namespace(ns: &str, r: bool)
    requires
        call_ensures(namespace::is_reserved_namespace, (ns,), r),
    ensures
        r <==> ns@ == "authsock"@,
{
}

/// An argument that has to do with the namespace, or ends the options.
pub open spec fn is_scanned(arg: Seq<char>) -> bool {
    arg == "--"@ || arg == "--namespace"@ || "--namespace="@.is_prefix_of(arg)
}

/// Arguments that have nothing to do with the namespace are left as they are.
pub proof fn other_arguments_stay(
    args: &[String],
    r: Result<(Option<String>, Vec<String>), String>,
)
    requires
        forall|i: int| 0 <= i < args@.len() ==> !is_scanned((#[trigger] args@[i])@),
        call_ensures(namespace::take_namespace_flag, (args,), r),
    ensures
        r matches Ok((ns, rest)) && ns is None && rest.deep_view() == args.deep_view(),
{
    let all = args.deep_view();
    assert forall|i: int| 0 <= i < all.len() implies !is_scanned(#[trigger] all[i]) by {
        assert(all[i] == args@[i]@);
    }
    scan_passes_over(all, Seq::empty(), None);
    assert(all + Seq::<Seq<char>>::empty() =~= all);
    if let Ok((ns, rest)) = r {
        assert(rest.deep_view() =~= all);
    }
}

proof fn scan_passes_over(
    front: Seq<Seq<char>>,
    rest: Seq<Seq<char>>,
    found: Option<Seq<char>>,
)
    requires
        forall|i: int| 0 <= i < front.len() ==> !is_scanned(#[trigger] front[i]),
    ensures
        namespace::namespace_scan(front + rest, found) == namespace::keep_arguments(
            front,
            namespace::namespace_scan(rest, found),
        ),
    decreases front.len(),
{
    let scan = namespace::namespace_scan(rest, found);
    if front.len() == 0 {
        assert(front + rest =~= rest);
        if scan is Ok {
            assert(front + scan->Ok_0.1 =~= scan->Ok_0.1);
        }
    } else {
        let tail = front.skip(1);
        assert forall|i: int| 0 <= i < tail.len() implies !is_scanned(#[trigger] tail[i]) by {
            assert(tail[i] == front[i + 1]);
        }
        scan_passes_over(tail, rest, found);
        assert((front + rest)[0] == front[0]);
        assert(!is_scanned(front[0]));
        assert((front + rest).skip(1) =~= tail + rest);
        if scan is Ok {
            let left = scan->Ok_0.1;
            assert(seq![front[0]] + (tail + left) =~= front + left);
        }
    }
}

/// `--namespace NS` and `--namespace=NS` give the namespace `NS`, wherever they
/// stand before `--`, and are taken out of the arguments. It has to be a name,
/// and to agree with what else is given.
pub proof fn the_flag_gives_the_namespace(
    front: Seq<Seq<char>>,
    value: Seq<char>,
    behind: Seq<Seq<char>>,
    args: &[String],
    less: &[String],
    r: Result<(Option<String>, Vec<String>), String>,
    without: Result<(Option<String>, Vec<String>), String>,
)
    requires
        forall|i: int| 0 <= i < front.len() ==> !is_scanned(#[trigger] front[i]),
        args.deep_view() == front + seq!["--namespace"@, value] + behind || args.deep_view()
            == front + seq!["--namespace="@ + value] + behind,
        less.deep_view() == front + behind,
        call_ensures(namespace::take_namespace_flag, (args,), r),
        call_ensures(namespace::take_namespace_flag, (less,), without),
    ensures
        !is_name(value) ==> r is Err,
        r matches Ok((ns, rest)) ==> ns.deep_view() == Some(value) && (without matches Ok((m, left))
            && rest.deep_view() == left.deep_view() && (m is None || m.deep_view() == Some(value))),
        without matches Ok((m, left)) ==> (is_name(value) && (m is None || m.deep_view() == Some(
            value,
        )) ==> r is Ok),
{
    names_are_identifiers(value);
    reveal_strlit("--");
    reveal_strlit("--namespace");
    reveal_strlit("--namespace=");
    let pair = seq!["--namespace"@, value];
    let one = seq!["--namespace="@ + value];
    assert("--"@.len() == 2 && "--namespace"@.len() == 11 && "--namespace="@.len() == 12);
    assert("--namespace="@.is_prefix_of("--namespace="@ + value));
    assert(("--namespace="@ + value).skip(12) =~= value);
    let mid = if args.deep_view() == front + pair + behind {
        pair
    } else {
        one
    };
    assert(front + mid + behind =~= front + (mid + behind));
    scan_passes_over(front, mid + behind, None);
    scan_passes_over(front, behind, None);
    assert((mid + behind)[0] == mid[0]);
    assert((mid + behind).skip(mid.len() as int) =~= behind);
    if mid == pair {
        assert((mid + behind)[1] == value);
    }
    assert(namespace::namespace_scan(mid + behind, None) == match namespace::accepted_namespace(
        None,
        value,
    ) {
        Ok(ns) => namespace::namespace_scan(behind, Some(ns)),
        Err(e) => Err(e),
    });
    if is_name(value) {
        found_before(behind, value);
    }
}

/// What was found before agrees with what is found, or nothing is.
proof fn found_before(args: Seq<Seq<char>>, value: Seq<char>)
    requires
        namespace::is_identifier(value),
    ensures
        ({
            let fresh = namespace::namespace_scan(args, None);
            let after = namespace::namespace_scan(args, Some(value));
            &&& after matches Ok((ns, rest)) ==> ns == Some(value) && (fresh matches Ok((m, left))
                && left == rest && (m is None || m == Some(value)))
            &&& fresh matches Ok((m, left)) ==> ((m is None || m == Some(value)) ==> after is Ok)
        }),
    decreases args.len(),
{
    if args.len() == 0 || args[0] == "--"@ {
    } else if args[0] == "--namespace"@ {
        if args.len() >= 2 && namespace::is_identifier(args[1]) {
            let rest = args.skip(2);
            if args[1] == value {
                found_before(rest, value);
            } else {
                one_namespace_stays(rest, args[1]);
            }
        }
    } else if "--namespace="@.is_prefix_of(args[0]) {
        let given = args[0].skip("--namespace="@.len() as int);
        if namespace::is_identifier(given) {
            if given == value {
                found_before(args.skip(1), value);
            } else {
                one_namespace_stays(args.skip(1), given);
            }
        }
    } else {
        found_before(args.skip(1), value);
    }
}

proof fn one_namespace_stays(args: Seq<Seq<char>>, value: Seq<char>)
    ensures
        namespace::namespace_scan(args, Some(value)) matches Ok((ns, rest)) ==> ns == Some(value),
    decreases args.len(),
{
    if args.len() == 0 || args[0] == "--"@ {
    } else if args[0] == "--namespace"@ {
        if args.len() >= 2 && args[1] == value {
            one_namespace_stays(args.skip(2), value);
        }
    } else if "--namespace="@.is_prefix_of(args[0]) {
        one_namespace_stays(args.skip(1), value);
    } else {
        one_namespace_stays(args.skip(1), value);
    }
}

/// What stands behind `--` is not looked at.
pub proof fn nothing_behind_the_separator_names_a_namespace(
    front: Seq<Seq<char>>,
    behind: Seq<Seq<char>>,
    args: &[String],
    r: Result<(Option<String>, Vec<String>), String>,
)
    requires
        forall|i: int| 0 <= i < front.len() ==> !is_scanned(#[trigger] front[i]),
        args.deep_view() == front + seq!["--"@] + behind,
        call_ensures(namespace::take_namespace_flag, (args,), r),
    ensures
        r matches Ok((ns, rest)) && ns is None && rest.deep_view() == args.deep_view(),
{
    let rest = seq!["--"@] + behind;
    assert(front + rest =~= front + seq!["--"@] + behind);
    assert(rest[0] == "--"@);
    scan_passes_over(front, rest, None);
}

/// The flag decides before the environment, the environment before the
/// configuration, and without any of them the namespace is `default`. What
/// decides has to be a name.
pub proof fn the_namespace_in_force(
    flag: Option<String>,
    env: Option<String>,
    config: Option<String>,
    r: Result<String, String>,
)
    requires
        call_ensures(namespace::resolve_namespace, (flag, env, config), r),
    ensures
        ({
            let given = if flag is Some {
                flag
            } else if env is Some {
                env
            } else {
                config
            };
            &&& r is Ok <==> (given matches Some(ns) ==> is_name(ns@))
            &&& r matches Ok(ns) ==> (given matches Some(g) ==> ns@ == g@)
            &&& r matches Ok(ns) ==> (given is None ==> ns@ == "default"@)
        }),
{
    reveal_strlit("default");
    assert(namespace::is_identifier("default"@));
    if flag is Some {
        names_are_identifiers(flag->0@);
    } else if env is Some {
        names_are_identifiers(env->0@);
    } else if config is Some {
        names_are_identifiers(config->0@);
    }
}

/// The variable gives the namespace without the space around it, and none where
/// there is nothing else in it.
pub proof fn the_variable_gives_a_namespace(
    value: String,
    v: &str,
    t: &str,
    r: Option<String>,
    unset: Option<String>,
)
    requires
        v@ == value@,
        call_ensures(text::trim, (v,), t),
        call_ensures(namespace::env_namespace, (Some(value),), r),
        call_ensures(namespace::env_namespace, (None::<String>,), unset),
    ensures
        t@.len() == 0 ==> r is None,
        t@.len() > 0 ==> r.deep_view() == Some(t@),
        unset is None,
{
}

/// A command works in the namespace that its flag gives, else in that of the
/// variable, else in that of the configuration, and keeps its other arguments.
pub proof fn commands_work_in_a_namespace(
    args: &[String],
    env: Option<String>,
    config: Option<String>,
    taken: Result<(Option<String>, Vec<String>), String>,
    setting: Option<String>,
    r: Result<(String, Vec<String>), String>,
)
    requires
        call_ensures(namespace::take_namespace_flag, (args,), taken),
        call_ensures(namespace::env_namespace, (env,), setting),
        call_ensures(cli::namespace_in_force, (args, env, config), r),
    ensures
        taken is Err ==> r is Err,
        r matches Ok((ns, rest)) ==> (taken matches Ok((flag, left)) && rest.deep_view()
            == left.deep_view() && ns@ == if flag is Some {
            flag->0@
        } else if setting is Some {
            setting->0@
        } else if config is Some {
            config->0@
        } else {
            "default"@
        }),
{
}

/// An hour is 3600 seconds and a minute 60; a bare number is one of seconds, and
/// so is one with an `s` behind it. Nothing else is a duration.
pub proof fn durations_are_seconds(d: &str, n: Option<u64>, s: &str, r: Result<u64, String>)
    requires
        call_ensures(text::parse_digits, (d,), n),
        call_ensures(config::parse_duration, (s,), r),
    ensures
        s@ == d@ && n is Some ==> r == Ok::<u64, String>(n->0),
        s@ == d@ && n is None && (s@.len() == 0 || (s@.last() != 'h' && s@.last() != 'm'
            && s@.last() != 's')) ==> r is Err,
        s@ == d@.push('s') ==> match n {
            Some(k) => r == Ok::<u64, String>(k),
            None => r is Err,
        },
        s@ == d@.push('m') ==> if n is Some && 60 * n->0 <= u64::MAX {
            r matches Ok(secs) && secs == 60 * n->0
        } else {
            r is Err
        },
        s@ == d@.push('h') ==> if n is Some && 60 * 60 * n->0 <= u64::MAX {
            r matches Ok(secs) && secs == 60 * 60 * n->0
        } else {
            r is Err
        },
{
    if s@ == d@ && n is Some {
        assert(text::is_digit(s@[s@.len() - 1]));
    }
    if s@ == d@.push('s') || s@ == d@.push('m') || s@ == d@.push('h') {
        assert(s@.drop_last() =~= d@);
    }
    if n is Some {
        let k = n->0;
        assert(k * 1nat == k) by (nonlinear_arith);
        assert(60 * 60 * k == k * 3600nat) by (nonlinear_arith);
    }
}

/// A definition names the key in its own namespace, where it has one, and else
/// in that of its context.
pub proof fn definitions_name_their_keys(def: &KvDefinition, context: &str, r: String)
    requires
        call_ensures(KvDefinition::full_key, (def, context), r),
    ensures
        def.namespace matches Some(ns) ==> r@ == ns@ + seq!['/'] + def.name@,
        def.namespace is None ==> r@ == context@ + seq!['/'] + def.name@,
{
    reveal_strlit("/");
    assert("/"@ =~= seq!['/']);
}

/// An entry keeps its name and its namespace, and both have to be names.
pub proof fn entries_are_named(
    name: &str,
    ns: &Option<String>,
    r: Result<(String, Option<String>), ConfigError>,
)
    requires
        call_ensures(config::split_kv_entry_name, (name, ns), r),
    ensures
        r is Ok <==> is_name(name@) && (*ns matches Some(n) ==> is_name(n@)),
        r matches Ok((key, pinned)) ==> key@ == name@ && pinned.deep_view() == ns.deep_view(),
{
    names_are_identifiers(name@);
    if let Some(n) = *ns {
        names_are_identifiers(n@);
    }
}

/// Only values of the type `otp` have parameters, and there is no other type.
pub proof fn types_of_values(
    name: &str,
    value_type: &Option<String>,
    digits: Option<u32>,
    period: Option<u64>,
    algorithm: &Option<String>,
    r: Result<ValueMetaWire, ConfigError>,
)
    requires
        call_ensures(config::build_kv_meta, (name, value_type, digits, period, algorithm), r),
    ensures
        value_type is None ==> (r is Ok <==> digits is None && period is None && algorithm is None),
        *value_type matches Some(t) ==> (t@ != "otp"@ ==> r is Err),
        *value_type matches Some(t) ==> (t@ == "otp"@ && algorithm is None ==> r is Ok),
        r matches Ok(meta) ==> meta.type_label.deep_view() == value_type.deep_view(),
        r is Ok && value_type is None ==> r->Ok_0.params@.len() == 0,
{
    if let Ok(meta) = r {
        assert(meta@.type_label == meta.type_label.deep_view());
        assert(meta@.params.len() == meta.params@.len());
    }
}

/// A hash that a definition names has to be one of the three.
pub proof fn definitions_name_known_hashes(
    name: &str,
    value_type: &Option<String>,
    digits: Option<u32>,
    period: Option<u64>,
    algorithm: &Option<String>,
    a: &str,
    hash: Option<OtpAlgorithm>,
    r: Result<ValueMetaWire, ConfigError>,
)
    requires
        *value_type matches Some(t) && t@ == "otp"@,
        *algorithm matches Some(given) && given@ == a@,
        call_ensures(OtpAlgorithm::parse, (a,), hash),
        call_ensures(config::build_kv_meta, (name, value_type, digits, period, algorithm), r),
    ensures
        r is Ok <==> hash is Some,
{
}

/// A 1Password reference is read by `op read`; a command is run as it is.
pub proof fn sources_come_down_to_commands(source: &SourceSpecWire, r: Vec<String>)
    requires
        call_ensures(SourceSpecWire::argv, (source,), r),
    ensures
        *source matches SourceSpecWire::Command { command } ==> r.deep_view()
            == command.argv.deep_view(),
        *source matches SourceSpecWire::Op { op } ==> r@.len() == 3 && r@[0]@ == "op"@ && r@[1]@
            == "read"@ && r@[2]@ == op.uri@,
{
    if *source is Op {
        assert(r.deep_view().len() == 3);
        assert(r.deep_view()[0] == r@[0]@ && r.deep_view()[1] == r@[1]@ && r.deep_view()[2]
            == r@[2]@);
    }
}

/// A complaint about an entry names the entry and says what is wrong with it.
pub proof fn complaints_name_their_entry(name: &str, what: &str, r: ConfigError)
    requires
        call_ensures(config::entry_error, (name, what), r),
    ensures
        r.message@ == "[kv."@ + name@ + "]: "@ + what@,
{
}

} // verus!
