//! KV namespaces and the composed `NS/KEY` form of a key.
//!
//! The store is flat: every key that crosses the protocol is a namespace and a
//! key joined by one `/`. Both parts are identifiers, which never hold a `/`,
//! so a composed key splits back in exactly one way.
//!
//! The namespace in force is resolved once per invocation: the `--namespace`
//! flag, then `CACHE_WARDEN_NAMESPACE`, then `[cli].namespace`, then
//! `"default"`.

use vstd::prelude::*;

use crate::text;

verus! {

/// The built-in default namespace.
pub const DEFAULT_NAMESPACE: &'static str = "default";

/// The namespace the daemon keeps for itself.
pub const RESERVED_NAMESPACE: &'static str = "authsock";

/// A letter, a digit or `_`, all ASCII.
pub open spec fn is_identifier_char(c: char) -> bool {
    'a' <= c <= 'z' || 'A' <= c <= 'Z' || '0' <= c <= '9' || c == '_'
}

/// A key or namespace name: one or more identifier characters.
pub open spec fn is_identifier(s: Seq<char>) -> bool {
    s.len() > 0 && forall|i: int| 0 <= i < s.len() ==> is_identifier_char(#[trigger] s[i])
}

/// The composed form of `key` in `ns`.
pub open spec fn composed(ns: Seq<char>, key: Seq<char>) -> Seq<char> {
    ns + "/"@ + key
}

/// Why `s` was refused as a `what`.
pub open spec fn bad_identifier(s: Seq<char>, what: Seq<char>) -> Seq<char> {
    "invalid "@ + what + " "@ + text::debug_text(s)
        + ": must be non-empty and contain only [A-Za-z0-9_] (DR-0017)"@
}

/// Whether `s` is a valid key or namespace name: `[A-Za-z0-9_]+`.
pub fn is_valid_identifier(s: &str) -> (r: bool)
    ensures
        r == is_identifier(s@),
{
    let chars = text::chars_of(s);
    let mut i: usize = 0;
    while i < chars.len()
        invariant
            i <= chars.len(),
            chars@ == s@,
            forall|j: int| 0 <= j < i ==> is_identifier_char(#[trigger] s@[j]),
        decreases chars.len() - i,
    {
        let c = chars[i];
        let ok = ('a' <= c && c <= 'z') || ('A' <= c && c <= 'Z') || ('0' <= c && c <= '9') || c
            == '_';
        if !ok {
            assert(!is_identifier_char(s@[i as int]));
            return false;
        }
        i += 1;
    }
    chars.len() > 0
}

/// Check one identifier, naming `what` it is in the error.
pub fn validate_identifier(s: &str, what: &str) -> (r: Result<(), String>)
    ensures
        match r {
            Ok(()) => is_identifier(s@),
            Err(e) => !is_identifier(s@) && e@ == bad_identifier(s@, what@),
        },
{
    if is_valid_identifier(s) {
        Ok(())
    } else {
        Err(
            "invalid ".to_owned().concat(what).concat(" ").concat(text::quoted(s).as_str()).concat(
                ": must be non-empty and contain only [A-Za-z0-9_] (DR-0017)",
            ),
        )
    }
}

/// Join a namespace and a key into the flat key `NS/KEY`.
pub fn compose(ns: &str, key: &str) -> (r: String)
    ensures
        r@ == composed(ns@, key@),
{
    ns.to_owned().concat("/").concat(key)
}

/// A composed key names one namespace and one key: no two different pairs
/// compose to the same text.
pub proof fn composed_is_unambiguous(
    ns1: Seq<char>,
    key1: Seq<char>,
    ns2: Seq<char>,
    key2: Seq<char>,
)
    requires
        is_identifier(ns1),
        is_identifier(key1),
        is_identifier(ns2),
        is_identifier(key2),
        composed(ns1, key1) == composed(ns2, key2),
    ensures
        ns1 == ns2,
        key1 == key2,
{
    reveal_strlit("/");
    first_slash_is_unique(ns1, key1, ns2, key2);
}

pub(crate) proof fn first_slash_is_unique(a1: Seq<char>, b1: Seq<char>, a2: Seq<char>, b2: Seq<char>)
    requires
        !a1.contains('/') || is_identifier(a1),
        !a2.contains('/') || is_identifier(a2),
        a1 + "/"@ + b1 == a2 + "/"@ + b2,
    ensures
        a1 == a2,
        b1 == b2,
{
    reveal_strlit("/");
    let s = a1 + "/"@ + b1;
    let t = a2 + "/"@ + b2;
    assert(s[a1.len() as int] == '/');
    assert(t[a2.len() as int] == '/');
    if a1.len() < a2.len() {
        assert(t[a1.len() as int] == a2[a1.len() as int]);
        assert(a2.contains('/'));
        assert(!is_identifier_char(a2[a1.len() as int]));
    }
    if a2.len() < a1.len() {
        assert(s[a2.len() as int] == a1[a2.len() as int]);
        assert(a1.contains('/'));
        assert(!is_identifier_char(a1[a2.len() as int]));
    }
    assert(a1.len() == a2.len());
    assert(a1 =~= s.take(a1.len() as int));
    assert(a2 =~= t.take(a1.len() as int));
    assert(b1 =~= s.skip(a1.len() as int + 1));
    assert(b2 =~= t.skip(a1.len() as int + 1));
}

/// The namespace and the key that a composed key is made of.
pub open spec fn composed_parts(s: Seq<char>) -> Option<(Seq<char>, Seq<char>)> {
    if exists|ns: Seq<char>, key: Seq<char>| is_composed_of(s, ns, key) {
        Some(choose|p: (Seq<char>, Seq<char>)| is_composed_of(s, p.0, p.1))
    } else {
        None
    }
}

/// `s` is composed of the identifiers `ns` and `key`.
pub open spec fn is_composed_of(s: Seq<char>, ns: Seq<char>, key: Seq<char>) -> bool {
    is_identifier(ns) && is_identifier(key) && s == composed(ns, key)
}

/// Splitting undoes composing.
pub proof fn composing_splits_back(ns: Seq<char>, key: Seq<char>)
    requires
        is_identifier(ns),
        is_identifier(key),
    ensures
        composed_parts(composed(ns, key)) == Some((ns, key)),
{
    let s = composed(ns, key);
    assert(is_composed_of(s, ns, key));
    assert(is_composed_of(s, (ns, key).0, (ns, key).1));
    let p = choose|p: (Seq<char>, Seq<char>)| is_composed_of(s, p.0, p.1);
    composed_is_unambiguous(p.0, p.1, ns, key);
}

/// Split a composed key into its namespace and key, or `None` when `s` is not
/// two identifiers joined by one `/`.
pub fn split_composed<'a>(s: &'a str) -> (r: Option<(&'a str, &'a str)>)
    ensures
        match r {
            Some((ns, key)) => composed_parts(s@) == Some((ns@, key@)) && is_composed_of(
                s@,
                ns@,
                key@,
            ),
            None => composed_parts(s@) is None && forall|n: Seq<char>, k: Seq<char>|
                is_identifier(n) && is_identifier(k) ==> s@ != #[trigger] composed(n, k),
        },
{
    let cut = text::cut_at(s, '/');
    proof {
        reveal_strlit("/");
        if cut is None {
            assert forall|ns: Seq<char>, key: Seq<char>|
                is_identifier(ns) && is_identifier(key) implies s@ != #[trigger] composed(
                ns,
                key,
            ) by {
                if s@ == composed(ns, key) {
                    assert(s@[ns.len() as int] == '/');
                }
            }
        }
    }
    match cut {
        None => None,
        Some((ns, key)) => {
            proof {
                assert(s@ =~= composed(ns@, key@));
                assert forall|ns2: Seq<char>, key2: Seq<char>|
                    is_identifier(ns2) && is_identifier(key2) && s@ == #[trigger] composed(
                        ns2,
                        key2,
                    ) implies ns2 == ns@ && key2 == key@ by {
                    first_slash_is_unique(ns@, key@, ns2, key2);
                }
            }
            if is_valid_identifier(ns) && is_valid_identifier(key) {
                proof {
                    composing_splits_back(ns@, key@);
                }
                Some((ns, key))
            } else {
                None
            }
        },
    }
}

/// The absolute form of a reference: a text holding a `/` is absolute already,
/// any other names a key of the context namespace.
pub open spec fn qualified(reference: Seq<char>, context: Seq<char>) -> Seq<char> {
    if reference.contains('/') {
        reference
    } else {
        composed(context, reference)
    }
}

/// Resolve a reference key against the context namespace.
pub fn qualify(reference_key: &str, ctx_ns: &str) -> (r: String)
    ensures
        r@ == qualified(reference_key@, ctx_ns@),
{
    if text::has_char(reference_key, '/') {
        reference_key.to_owned()
    } else {
        compose(ctx_ns, reference_key)
    }
}

/// Qualifying is idempotent: a qualified reference no longer depends on the
/// context it is read in.
pub proof fn qualified_is_absolute(reference: Seq<char>, context: Seq<char>, other: Seq<char>)
    ensures
        qualified(qualified(reference, context), other) == qualified(reference, context),
{
    reveal_strlit("/");
    let q = qualified(reference, context);
    if !reference.contains('/') {
        assert(q[context.len() as int] == '/');
    }
}

/// Whether `ns` is a namespace that callers may neither read nor write.
pub open spec fn reserved(ns: Seq<char>) -> bool {
    ns == "authsock"@
}

/// Whether `ns` is a namespace that callers may neither read nor write.
pub fn is_reserved_namespace(ns: &str) -> (r: bool)
    ensures
        r == reserved(ns@),
{
    text::same_text(ns, RESERVED_NAMESPACE)
}

/// What a scan of an argument list for `--namespace` gives: the namespace and
/// the arguments left over, or the complaint.
pub type NamespaceScan = Result<(Option<Seq<char>>, Seq<Seq<char>>), Seq<char>>;

/// The complaint about two `--namespace` flags that disagree.
pub open spec fn namespace_conflict(first: Seq<char>, second: Seq<char>) -> Seq<char> {
    "--namespace given twice with different values ("@ + text::debug_text(first) + " vs "@ + text::debug_text(
        second,
    ) + ")"@
}

/// The scan of `args` for `--namespace NS` and `--namespace=NS`, when the flag
/// has given `found` so far.
///
/// A standalone `--` ends the scan and stays in front of what follows it. Each
/// value must be an identifier, and all of them must agree.
pub open spec fn namespace_scan(args: Seq<Seq<char>>, found: Option<Seq<char>>) -> NamespaceScan
    decreases args.len(),
{
    if args.len() == 0 || args[0] == "--"@ {
        Ok((found, args))
    } else if args[0] == "--namespace"@ {
        if args.len() < 2 {
            Err("--namespace requires a NS argument"@)
        } else {
            match accepted_namespace(found, args[1]) {
                Ok(ns) => namespace_scan(args.skip(2), Some(ns)),
                Err(e) => Err(e),
            }
        }
    } else if "--namespace="@.is_prefix_of(args[0]) {
        match accepted_namespace(found, args[0].skip("--namespace="@.len() as int)) {
            Ok(ns) => namespace_scan(args.skip(1), Some(ns)),
            Err(e) => Err(e),
        }
    } else {
        keep_argument(args[0], namespace_scan(args.skip(1), found))
    }
}

/// The scan result with one more argument left over in front.
pub open spec fn keep_argument(arg: Seq<char>, scan: NamespaceScan) -> NamespaceScan {
    keep_arguments(seq![arg], scan)
}

/// The scan result with more arguments left over in front.
pub open spec fn keep_arguments(args: Seq<Seq<char>>, scan: NamespaceScan) -> NamespaceScan {
    match scan {
        Ok((ns, rest)) => Ok((ns, args + rest)),
        Err(e) => Err(e),
    }
}

/// The namespace in force once the flag gave `value` after `found`.
pub open spec fn accepted_namespace(found: Option<Seq<char>>, value: Seq<char>) -> Result<
    Seq<char>,
    Seq<char>,
> {
    if !is_identifier(value) {
        Err(bad_identifier(value, "namespace"@))
    } else if found is Some && found->0 != value {
        Err(namespace_conflict(found->0, value))
    } else {
        Ok(value)
    }
}

fn accept_namespace(found: &Option<String>, value: &str) -> (r: Result<(), String>)
    ensures
        match r {
            Ok(()) => accepted_namespace(found.deep_view(), value@) == Ok::<Seq<char>, Seq<char>>(
                value@,
            ),
            Err(e) => accepted_namespace(found.deep_view(), value@) == Err::<Seq<char>, Seq<char>>(
                e@,
            ),
        },
{
    match validate_identifier(value, "namespace") {
        Err(e) => Err(e),
        Ok(()) => match found {
            Some(prev) => if text::same_text(prev.as_str(), value) {
                Ok(())
            } else {
                Err(
                    "--namespace given twice with different values (".to_owned().concat(
                        text::quoted(prev.as_str()).as_str(),
                    ).concat(" vs ").concat(text::quoted(value).as_str()).concat(")"),
                )
            },
            None => Ok(()),
        },
    }
}

/// Take the `--namespace NS` / `--namespace=NS` flag out of `args`, returning
/// its value, if it was given, and the arguments left over.
pub fn take_namespace_flag(args: &[String]) -> (r: Result<(Option<String>, Vec<String>), String>)
    ensures
        match r {
            Ok((ns, rest)) => namespace_scan(args.deep_view(), None) == NamespaceScan::Ok(
                (ns.deep_view(), rest.deep_view()),
            ),
            Err(e) => namespace_scan(args.deep_view(), None) == NamespaceScan::Err(e@),
        },
{
    let mut ns: Option<String> = None;
    let mut rest: Vec<String> = Vec::new();
    let mut i: usize = 0;
    let ghost all = args.deep_view();
    proof {
        assert(all.skip(0) =~= all);
        assert(rest.deep_view() =~= Seq::<Seq<char>>::empty());
        lemma_keep_nothing(namespace_scan(all, None));
    }
    while i < args.len()
        invariant
            i <= args.len(),
            all == args.deep_view(),
            namespace_scan(all, None) == keep_arguments(
                rest.deep_view(),
                namespace_scan(all.skip(i as int), ns.deep_view()),
            ),
        decreases args.len() - i,
    {
        let ghost tail = all.skip(i as int);
        let ghost before = rest.deep_view();
        assert(tail[0] == args@[i as int]@);
        assert(tail.len() == args.len() - i);
        assert(tail.skip(1) =~= all.skip(i + 1));
        let a = args[i].as_str();
        if text::same_text(a, "--") {
            let ghost left = rest.deep_view();
            let ghost from = i as int;
            while i < args.len()
                invariant
                    0 <= from <= i <= args.len(),
                    all == args.deep_view(),
                    rest.deep_view() == left + all.subrange(from, i as int),
                decreases args.len() - i,
            {
                text::push_text(&mut rest, args[i].clone());
                assert(left + all.subrange(from, i + 1) =~= (left + all.subrange(
                    from,
                    i as int,
                )).push(all[i as int]));
                i += 1;
            }
            assert(all.subrange(from, i as int) =~= all.skip(from));
            return Ok((ns, rest));
        }
        if text::same_text(a, "--namespace") {
            if args.len() - i < 2 {
                return Err("--namespace requires a NS argument".to_owned());
            }
            let value = args[i + 1].as_str();
            assert(tail[1] == value@);
            assert(tail.skip(2) =~= all.skip(i + 2));
            match accept_namespace(&ns, value) {
                Err(e) => {
                    return Err(e);
                },
                Ok(()) => {
                    ns = Some(value.to_owned());
                },
            }
            i += 2;
        } else {
            match text::after_prefix(a, "--namespace=") {
                Some(value) => {
                    proof {
                        assert("--namespace="@.is_prefix_of(a@));
                        assert(a@.skip("--namespace="@.len() as int) =~= value@);
                    }
                    match accept_namespace(&ns, value) {
                        Err(e) => {
                            return Err(e);
                        },
                        Ok(()) => {
                            ns = Some(value.to_owned());
                        },
                    }
                    i += 1;
                },
                None => {
                    text::push_text(&mut rest, args[i].clone());
                    proof {
                        lemma_keep_more(
                            before,
                            a@,
                            namespace_scan(all.skip(i + 1), ns.deep_view()),
                        );
                    }
                    i += 1;
                },
            }
        }
    }
    proof {
        assert(all.skip(i as int) =~= Seq::<Seq<char>>::empty());
        assert(rest.deep_view() + Seq::<Seq<char>>::empty() =~= rest.deep_view());
    }
    Ok((ns, rest))
}

proof fn lemma_keep_nothing(scan: NamespaceScan)
    ensures
        keep_arguments(Seq::empty(), scan) == scan,
{
    if scan is Ok {
        assert(Seq::<Seq<char>>::empty() + scan->Ok_0.1 =~= scan->Ok_0.1);
    }
}

proof fn lemma_keep_more(front: Seq<Seq<char>>, arg: Seq<char>, scan: NamespaceScan)
    ensures
        keep_arguments(front, keep_argument(arg, scan)) == keep_arguments(front.push(arg), scan),
{
    if scan is Ok {
        let rest = scan->Ok_0.1;
        assert(front + (seq![arg] + rest) =~= front.push(arg) + rest);
    }
}

/// The first of the flag, the environment and the config that gives a
/// namespace decides; that one must be an identifier.
pub open spec fn resolved_namespace(
    flag: Option<Seq<char>>,
    env: Option<Seq<char>>,
    config: Option<Seq<char>>,
) -> Result<Seq<char>, Seq<char>> {
    let (ns, what) = if flag is Some {
        (flag->0, "namespace"@)
    } else if env is Some {
        (env->0, "namespace (CACHE_WARDEN_NAMESPACE)"@)
    } else if config is Some {
        (config->0, "namespace ([cli].namespace)"@)
    } else {
        ("default"@, "namespace"@)
    };
    if is_identifier(ns) {
        Ok(ns)
    } else {
        Err(bad_identifier(ns, what))
    }
}

/// Resolve the namespace in force from the `--namespace` flag, the
/// `CACHE_WARDEN_NAMESPACE` variable and the config's `[cli].namespace`.
pub fn resolve_namespace(
    flag: Option<String>,
    env: Option<String>,
    config: Option<String>,
) -> (r: Result<String, String>)
    ensures
        match r {
            Ok(ns) => resolved_namespace(flag.deep_view(), env.deep_view(), config.deep_view())
                == Ok::<Seq<char>, Seq<char>>(ns@),
            Err(e) => resolved_namespace(flag.deep_view(), env.deep_view(), config.deep_view())
                == Err::<Seq<char>, Seq<char>>(e@),
        },
{
    proof {
        reveal_strlit("default");
        assert(is_identifier("default"@));
    }
    if let Some(ns) = flag {
        return match validate_identifier(ns.as_str(), "namespace") {
            Ok(()) => Ok(ns),
            Err(e) => Err(e),
        };
    }
    if let Some(ns) = env {
        return match validate_identifier(ns.as_str(), "namespace (CACHE_WARDEN_NAMESPACE)") {
            Ok(()) => Ok(ns),
            Err(e) => Err(e),
        };
    }
    if let Some(ns) = config {
        return match validate_identifier(ns.as_str(), "namespace ([cli].namespace)") {
            Ok(()) => Ok(ns),
            Err(e) => Err(e),
        };
    }
    Ok(DEFAULT_NAMESPACE.to_owned())
}

/// A resolved namespace is always an identifier.
pub proof fn resolved_namespace_is_identifier(
    flag: Option<Seq<char>>,
    env: Option<Seq<char>>,
    config: Option<Seq<char>>,
)
    ensures
        resolved_namespace(flag, env, config) matches Ok(ns) ==> is_identifier(ns),
{
}

/// The namespace that a value of `CACHE_WARDEN_NAMESPACE` gives: trimmed, and
/// none where it is unset or blank.
pub open spec fn env_setting(value: Option<Seq<char>>) -> Option<Seq<char>> {
    match value {
        Some(v) => if text::trimmed(v).len() == 0 {
            None
        } else {
            Some(text::trimmed(v))
        },
        None => None,
    }
}

/// What `CACHE_WARDEN_NAMESPACE` holds, trimmed; unset or blank counts as not
/// given.
pub fn env_namespace(value: Option<String>) -> (r: Option<String>)
    ensures
        r.deep_view() == env_setting(value.deep_view()),
{
    match value {
        None => None,
        Some(v) => {
            let t = text::trim(v.as_str());
            if t.is_empty() {
                None
            } else {
                Some(t.to_owned())
            }
        },
    }
}

/// Scanning out `--namespace` leaves nothing to scan out: a second scan finds no
/// flag and leaves the arguments as they are.
pub proof fn scanning_twice_changes_nothing_more(args: Seq<Seq<char>>, found: Option<Seq<char>>)
    ensures
        namespace_scan(args, found) matches Ok((ns, rest)) ==> namespace_scan(rest, None)
            == NamespaceScan::Ok((None, rest)),
    decreases args.len(),
{
    if args.len() > 0 && args[0] != "--"@ {
        if args[0] == "--namespace"@ {
            if args.len() >= 2 {
                if let Ok(ns) = accepted_namespace(found, args[1]) {
                    scanning_twice_changes_nothing_more(args.skip(2), Some(ns));
                }
            }
        } else if "--namespace="@.is_prefix_of(args[0]) {
            let value = args[0].skip("--namespace="@.len() as int);
            if let Ok(ns) = accepted_namespace(found, value) {
                scanning_twice_changes_nothing_more(args.skip(1), Some(ns));
            }
        } else {
            scanning_twice_changes_nothing_more(args.skip(1), found);
            if let Ok((ns, rest)) = namespace_scan(args.skip(1), found) {
                let kept = seq![args[0]] + rest;
                assert(kept[0] == args[0]);
                assert(kept.skip(1) =~= rest);
            }
        }
    }
}

} // verus!
