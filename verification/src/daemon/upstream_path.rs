//! The path under which an upstream agent's socket is reached.
//!
//! Reaching into `~/Library/Group Containers/` makes macOS ask the user for
//! consent. A socket there is reached through a link in the state directory
//! instead; any other path is used as it is.

use vstd::prelude::*;

use crate::path;
use crate::text;

verus! {

/// Whether a path lies in the Group Container of a macOS app.
pub open spec fn in_group_container(path: Seq<char>) -> bool {
    text::occurs_in("Library/Group Containers/"@, path)
}

/// Whether a path lies in the Group Container of a macOS app.
pub fn is_group_container_path(path: &str) -> (r: bool)
    ensures
        r == in_group_container(path@),
{
    text::has_text(path, "Library/Group Containers/")
}

/// The path to connect to: `link` is the link that stands for the socket, where
/// the platform needs one and it could be made.
pub fn resolve_upstream_path(configured: &str, link: Option<String>) -> (r: String)
    ensures
        r@ == if in_group_container(configured@) && link is Some {
            link->0@
        } else {
            configured@
        },
{
    if is_group_container_path(configured) {
        if let Some(l) = link {
            return l;
        }
    }
    configured.to_owned()
}

/// `s` without any `.sock` at its end.
pub open spec fn without_sock(s: Seq<char>) -> Seq<char>
    decreases s.len(),
{
    if s.len() >= 5 && s.skip(s.len() - 5) == ".sock"@ {
        without_sock(s.take(s.len() - 5))
    } else {
        s
    }
}

/// A letter, a digit, `-` or `_`, all ASCII.
pub open spec fn is_link_char(c: char) -> bool {
    'a' <= c <= 'z' || 'A' <= c <= 'Z' || '0' <= c <= '9' || c == '-' || c == '_'
}

/// The name of the link for a socket of this name.
pub open spec fn link_stem(name: Seq<char>) -> Seq<char> {
    let cleaned = without_sock(name).map_values(
        |c: char|
            if is_link_char(c) {
                c
            } else {
                '_'
            },
    );
    if cleaned.len() == 0 {
        "agent"@
    } else {
        cleaned
    }
}

fn strip_sock(name: &str) -> (r: &str)
    ensures
        r@ == without_sock(name@),
{
    let n: usize = name.unicode_len();
    let mut end: usize = n;
    assert(name@.take(n as int) =~= name@);
    while end >= 5 && text::same_text(name.substring_char(end - 5, end), ".sock")
        invariant
            end <= n,
            n == name@.len(),
            without_sock(name@) == without_sock(name@.take(end as int)),
        decreases end,
    {
        proof {
            let cur = name@.take(end as int);
            assert(cur.skip(end - 5) =~= name@.subrange(end - 5, end as int));
            assert(cur.take(end - 5) =~= name@.take(end - 5));
        }
        end -= 5;
    }
    proof {
        let cur = name@.take(end as int);
        if end >= 5 {
            assert(cur.skip(end - 5) =~= name@.subrange(end - 5, end as int));
        }
        assert(name@.subrange(0, end as int) =~= cur);
    }
    name.substring_char(0, end)
}

/// The name of the link for a socket file of this name: no `.sock`, and nothing
/// but letters, digits, `-` and `_`.
pub fn sanitize_component(name: &str) -> (r: String)
    ensures
        r@ == link_stem(name@),
{
    let stem = strip_sock(name);
    let chars = text::chars_of(stem);
    let ghost want = stem@.map_values(
        |c: char|
            if is_link_char(c) {
                c
            } else {
                '_'
            },
    );
    let mut out = String::new();
    let mut i: usize = 0;
    while i < chars.len()
        invariant
            i <= chars.len(),
            chars@ == stem@,
            want == stem@.map_values(
                |c: char|
                    if is_link_char(c) {
                        c
                    } else {
                        '_'
                    },
            ),
            out@ == want.take(i as int),
        decreases chars.len() - i,
    {
        let c = chars[i];
        let plain = ('a' <= c && c <= 'z') || ('A' <= c && c <= 'Z') || ('0' <= c && c <= '9') || c
            == '-' || c == '_';
        if plain {
            out.push(c);
        } else {
            out.push('_');
        }
        assert(out@ =~= want.take(i + 1));
        i += 1;
    }
    assert(want.take(i as int) =~= want);
    if out.as_str().is_empty() {
        "agent".to_owned()
    } else {
        out
    }
}

/// A link's name is never empty and never leads out of its directory.
pub proof fn link_names_are_safe(name: Seq<char>)
    ensures
        link_stem(name).len() > 0,
        forall|i: int| 0 <= i < link_stem(name).len() ==> is_link_char(#[trigger] link_stem(name)[i]),
{
    reveal_strlit("agent");
}

/// A character of a path that stands for itself in the name of a link.
pub open spec fn stands_in_name(c: char) -> bool {
    'a' <= c <= 'z' || 'A' <= c <= 'Z' || '0' <= c <= '9' || c == '-' || c == '.'
}

/// What stands for a character of a path in the name of a link: a slash is an
/// underscore, and what no name should hold is given by its number.
pub open spec fn name_unit(c: char) -> Seq<char> {
    if stands_in_name(c) {
        seq![c]
    } else if c == '/' {
        seq!['_']
    } else {
        seq!['='] + text::decimal(c as u32 as nat) + seq!['=']
    }
}

/// What stands for a path in the name of a link.
pub open spec fn path_code(path: Seq<char>) -> Seq<char>
    decreases path.len(),
{
    if path.len() == 0 {
        Seq::empty()
    } else {
        name_unit(path[0]) + path_code(path.skip(1))
    }
}

fn encode_path(path: &str) -> (r: String)
    ensures
        r@ == path_code(path@),
{
    let chars = text::chars_of(path);
    let mut out = String::new();
    let mut i: usize = 0;
    assert(path@.skip(0) =~= path@);
    assert(Seq::<char>::empty() + path_code(path@) =~= path_code(path@));
    while i < chars.len()
        invariant
            i <= chars.len(),
            chars@ == path@,
            out@ + path_code(path@.skip(i as int)) == path_code(path@),
        decreases chars.len() - i,
    {
        let ghost before = out@;
        let ghost rest = path@.skip(i as int);
        let c = chars[i];
        let plain = ('a' <= c && c <= 'z') || ('A' <= c && c <= 'Z') || ('0' <= c && c <= '9') || c
            == '-' || c == '.';
        if plain {
            out.push(c);
        } else if c == '/' {
            out.push('_');
        } else {
            let code: u32 = c as u32;
            let number = text::number_text(code as u64);
            out.push('=');
            out = out.concat(number.as_str());
            out.push('=');
        }
        proof {
            assert(rest[0] == c);
            assert(rest.skip(1) =~= path@.skip(i + 1));
            assert(out@ =~= before + name_unit(c));
            assert(before + (name_unit(c) + path_code(rest.skip(1))) =~= out@ + path_code(
                rest.skip(1),
            ));
        }
        i += 1;
    }
    assert(out@ + Seq::<char>::empty() =~= out@);
    out
}

/// What the paths of all Group Containers of a user begin with.
pub open spec fn containers_of(home: Seq<char>) -> Seq<char> {
    home + "/Library/Group Containers/"@
}

/// What stands for the place of a socket in the name of its link. A socket in a
/// Group Container of the user is named from there on: the path of a socket may
/// not be long.
pub open spec fn place_code(target: Seq<char>, home: Option<Seq<char>>) -> Seq<char> {
    if home is Some && containers_of(home->0).is_prefix_of(target) {
        seq!['g', '-'] + path_code(target.skip(containers_of(home->0).len() as int))
    } else {
        seq!['p', '-'] + path_code(target)
    }
}

/// The file name of the link for the socket `target` of the user whose home is
/// `home`.
pub open spec fn name_of_link(target: Seq<char>, home: Option<Seq<char>>) -> Seq<char> {
    link_stem(
        match path::last_name(target) {
            Some(name) => name,
            None => "agent"@,
        },
    ) + seq!['.'] + place_code(target, home)
}

/// The file name of the link for the socket `target`, of which the user's home
/// is `home`: what the socket is called, and what stands for its whole path.
pub fn link_name(target: &str, home: Option<&str>) -> (r: String)
    ensures
        r@ == name_of_link(
            target@,
            match home {
                Some(h) => Some(h@),
                None => None,
            },
        ),
{
    let mut name = match path::file_name(target) {
        Some(name) => sanitize_component(name.as_str()),
        None => sanitize_component("agent"),
    };
    let ghost stem = name@;
    name.push('.');
    let inside = match home {
        Some(h) => {
            let lead = h.to_owned().concat("/Library/Group Containers/");
            text::after_prefix(target, lead.as_str())
        },
        None => None,
    };
    match inside {
        Some(rest) => {
            name.push('g');
            name.push('-');
            let r = name.concat(encode_path(rest).as_str());
            proof {
                let lead = containers_of(home->0@);
                assert(target@ =~= lead + rest@);
                assert(lead.is_prefix_of(target@));
                assert(target@.skip(lead.len() as int) =~= rest@);
                assert(r@ =~= stem + seq!['.'] + (seq!['g', '-'] + path_code(rest@)));
            }
            r
        },
        None => {
            name.push('p');
            name.push('-');
            let r = name.concat(encode_path(target).as_str());
            assert(r@ =~= stem + seq!['.'] + (seq!['p', '-'] + path_code(target@)));
            r
        },
    }
}

proof fn number_ends_at_its_mark(a: Seq<char>, b: Seq<char>, r: Seq<char>, t: Seq<char>)
    requires
        text::is_digits(a),
        text::is_digits(b),
        a + seq!['='] + r == b + seq!['='] + t,
    ensures
        a == b,
        r == t,
{
    let s = a + seq!['='] + r;
    if a.len() < b.len() {
        assert(s[a.len() as int] == '=');
        assert(s[a.len() as int] == b[a.len() as int]);
        assert(text::is_digit(b[a.len() as int]));
    }
    if b.len() < a.len() {
        assert(s[b.len() as int] == '=');
        assert(s[b.len() as int] == a[b.len() as int]);
        assert(text::is_digit(a[b.len() as int]));
    }
    assert(a =~= s.take(a.len() as int));
    assert(b =~= s.take(a.len() as int));
    assert(r =~= s.skip(a.len() as int + 1));
    assert(t =~= s.skip(a.len() as int + 1));
}

proof fn units_are_apart(c: char, d: char, r: Seq<char>, t: Seq<char>)
    requires
        name_unit(c) + r == name_unit(d) + t,
    ensures
        c == d,
        r == t,
{
    let s = name_unit(c) + r;
    assert(s[0] == name_unit(c)[0]);
    assert(s[0] == name_unit(d)[0]);
    if stands_in_name(c) || c == '/' {
        assert(r =~= s.skip(1));
        assert(t =~= s.skip(1));
    } else {
        let m = text::decimal(c as u32 as nat);
        let n = text::decimal(d as u32 as nat);
        assert(s.skip(1) =~= m + seq!['='] + r);
        assert(s.skip(1) =~= n + seq!['='] + t);
        text::decimal_reads_back(c as u32 as nat);
        text::decimal_reads_back(d as u32 as nat);
        number_ends_at_its_mark(m, n, r, t);
        text::decimal_is_injective(c as u32 as nat, d as u32 as nat);
    }
}

proof fn path_codes_are_apart(a: Seq<char>, b: Seq<char>)
    requires
        path_code(a) == path_code(b),
    ensures
        a == b,
    decreases a.len(),
{
    if a.len() == 0 || b.len() == 0 {
        if a.len() > 0 {
            assert(path_code(a)[0] == name_unit(a[0])[0]);
        }
        if b.len() > 0 {
            assert(path_code(b)[0] == name_unit(b[0])[0]);
        }
        assert(a =~= b);
    } else {
        units_are_apart(a[0], b[0], path_code(a.skip(1)), path_code(b.skip(1)));
        path_codes_are_apart(a.skip(1), b.skip(1));
        assert(a =~= seq![a[0]] + a.skip(1));
        assert(b =~= seq![b[0]] + b.skip(1));
    }
}

/// Two sockets never share a link: what differs in the path differs in the name.
pub proof fn links_are_not_shared(a: Seq<char>, b: Seq<char>, home: Option<Seq<char>>)
    requires
        name_of_link(a, home) == name_of_link(b, home),
    ensures
        a == b,
{
    let called = |s: Seq<char>|
        link_stem(
            match path::last_name(s) {
                Some(name) => name,
                None => "agent"@,
            },
        );
    let (m, n) = (called(a), called(b));
    let s = name_of_link(a, home);
    let (x, y) = (place_code(a, home), place_code(b, home));
    assert(s =~= m + seq!['.'] + x && s =~= n + seq!['.'] + y);
    link_names_are_safe(
        match path::last_name(a) {
            Some(name) => name,
            None => "agent"@,
        },
    );
    link_names_are_safe(
        match path::last_name(b) {
            Some(name) => name,
            None => "agent"@,
        },
    );
    if m.len() < n.len() {
        assert(s[m.len() as int] == '.');
        assert(is_link_char(n[m.len() as int]));
    }
    if n.len() < m.len() {
        assert(s[n.len() as int] == '.');
        assert(is_link_char(m[n.len() as int]));
    }
    assert(x =~= s.skip(m.len() as int + 1));
    assert(y =~= s.skip(m.len() as int + 1));
    assert(x[0] == y[0]);
    if x[0] == 'g' {
        let lead = containers_of(home->0);
        let (p, q) = (a.skip(lead.len() as int), b.skip(lead.len() as int));
        assert(path_code(p) =~= x.skip(2) && path_code(q) =~= x.skip(2));
        path_codes_are_apart(p, q);
        assert(a =~= lead + p);
        assert(b =~= lead + q);
    } else {
        assert(path_code(a) =~= x.skip(2) && path_code(b) =~= x.skip(2));
        path_codes_are_apart(a, b);
    }
}

/// Whether a link that points at `existing` can be used for `target` as it is.
pub fn link_is_current(existing: &Option<String>, target: &str) -> (r: bool)
    ensures
        r == (existing matches Some(p) && path::parts(p@) == path::parts(target@)),
{
    match existing {
        Some(p) => path::same_path(p.as_str(), target),
        None => false,
    }
}

/// The directory of the links, from `$XDG_STATE_HOME` and `$HOME`, where either
/// is set.
pub fn state_upstreams_dir(state_home: Option<&str>, home: Option<&str>) -> (r: Option<String>)
    ensures
        r.deep_view() == match (state_home, home) {
            (Some(dir), _) => Some(path::joined_path(dir@, "cache-warden/upstreams"@)),
            (None, Some(h)) => Some(
                path::joined_path(
                    path::joined_path(h@, ".local/state"@),
                    "cache-warden/upstreams"@,
                ),
            ),
            (None, None) => None,
        },
{
    let base = match (state_home, home) {
        (Some(dir), _) => dir.to_owned(),
        (None, Some(h)) => path::join_path(h, ".local/state"),
        (None, None) => {
            return None;
        },
    };
    Some(path::join_path(base.as_str(), "cache-warden/upstreams"))
}

} // verus!
